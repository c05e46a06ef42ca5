//! Ultimate tic-tac-toe on bitboards: nine small boards inside one large
//! board, with precomputed evaluation tables for every pair of nine-bit
//! occupancies.  The board always shows the side to move as `us`;
//! `play_move` places one mark, scores any completed small board, selects
//! the next zone, and flips the board.

use crate::prelude::{GameHandler, GamePosition};
use vstd::prelude::*;

verus! {

/// A win for the side to move.
pub const OUTCOME_WIN: i64 = 1000000;

/// A drawn game.
pub const OUTCOME_DRAW: i64 = 0;

/// A loss for the side to move.
pub const OUTCOME_LOSS: i64 = -1000000;

const BIG_TWO_COUNT: i64 = 90;

const BIG_ONE_COUNT: i64 = 20;

const SMALL_TWO_COUNT: i64 = 8;

const SMALL_ONE_COUNT: i64 = 1;

const CENTRE: i64 = 9;

const CORNER: i64 = 7;

const EDGE: i64 = 5;

const SQ_BIG: i64 = 25;

const CORNER_MASK: u64 = 0b_101_000_101;

const EDGE_MASK: u64 = 0b_010_101_010;

const CENTRE_MASK: u64 = 0b_000_010_000;

const LINE: u64 = 0b111;

/// One small board's nine occupancy bits.
pub const CHUNK: u64 = 0b111111111;

/// Two small boards' occupancy bits side by side (two `CHUNK`s).
pub const DBLCHUNK: u64 = 0x3ffff;

/// The zone value that allows a move in any open zone.
pub const ZONE_ANY: u64 = 9;

/// A masked value never exceeds its mask.
pub proof fn lemma_and_le_mask(x: u64, m: u64)
    ensures
        (x & m) <= m,
{
    assert((x & m) <= m) by (bit_vector);
}

/// For each of the eight lines of a three-by-three grid, the count of the
/// grid's marks on that line, packed as eight three-bit fields.
pub open spec fn lines_spec(grid: u64) -> u64 {
    ((if grid & 1 == 1 {
        0b_000_100_000_000_100_000_000_100u64
    } else {
        0u64
    }) + (if (grid >> 1) & 1 == 1 {
        0b_000_000_000_000_010_000_100_000u64
    } else {
        0u64
    }) + (if (grid >> 2) & 1 == 1 {
        0b_100_000_000_000_001_100_000_000u64
    } else {
        0u64
    }) + (if (grid >> 3) & 1 == 1 {
        0b_000_000_000_100_000_000_000_010u64
    } else {
        0u64
    }) + (if (grid >> 4) & 1 == 1 {
        0b_010_010_000_010_000_000_010_000u64
    } else {
        0u64
    }) + (if (grid >> 5) & 1 == 1 {
        0b_000_000_000_001_000_010_000_000u64
    } else {
        0u64
    }) + (if (grid >> 6) & 1 == 1 {
        0b_001_000_100_000_000_000_000_001u64
    } else {
        0u64
    }) + (if (grid >> 7) & 1 == 1 {
        0b_000_000_010_000_000_000_001_000u64
    } else {
        0u64
    }) + (if (grid >> 8) & 1 == 1 {
        0b_000_001_001_000_000_001_000_000u64
    } else {
        0u64
    })) as u64
}

/// Whether a three-by-three grid holds a completed line.
pub open spec fn line_presence_spec(grid: u64) -> bool {
    0 != ((0b10110110u64 | (if grid & 1 == 1 {
        0xffu64
    } else {
        0u64
    })) & (0b11101110u64 | (if (grid >> 1) & 1 == 1 {
        0xffu64
    } else {
        0u64
    })) & (0b01011110u64 | (if (grid >> 2) & 1 == 1 {
        0xffu64
    } else {
        0u64
    })) & (0b11110101u64 | (if (grid >> 3) & 1 == 1 {
        0xffu64
    } else {
        0u64
    })) & (0b00101101u64 | (if (grid >> 4) & 1 == 1 {
        0xffu64
    } else {
        0u64
    })) & (0b11011101u64 | (if (grid >> 5) & 1 == 1 {
        0xffu64
    } else {
        0u64
    })) & (0b01110011u64 | (if (grid >> 6) & 1 == 1 {
        0xffu64
    } else {
        0u64
    })) & (0b11101011u64 | (if (grid >> 7) & 1 == 1 {
        0xffu64
    } else {
        0u64
    })) & (0b10011011u64 | (if (grid >> 8) & 1 == 1 {
        0xffu64
    } else {
        0u64
    })))
}

/// The occupancy of one line of the grid, as a three-bit mask: the cells
/// `(a, b, c)` of the line packed from the high bit down.
pub open spec fn ut3_line_occupancy(grid: u64, a: u64, b: u64, c: u64) -> u64 {
    ((((grid >> a) & 1) << 2) | (((grid >> b) & 1) << 1) | ((grid >> c) & 1)) as u64
}

/// The packed line table agrees with the direct statement: its eight
/// three-bit fields are the occupancy masks of the three columns, the three
/// rows, and the two diagonals, in that order.
pub proof fn lemma_lines_are_occupancies(grid: u64)
    ensures
        (lines_spec(grid) & 7) == ut3_line_occupancy(grid, 0, 3, 6),
        ((lines_spec(grid) >> 3) & 7) == ut3_line_occupancy(grid, 1, 4, 7),
        ((lines_spec(grid) >> 6) & 7) == ut3_line_occupancy(grid, 2, 5, 8),
        ((lines_spec(grid) >> 9) & 7) == ut3_line_occupancy(grid, 0, 1, 2),
        ((lines_spec(grid) >> 12) & 7) == ut3_line_occupancy(grid, 3, 4, 5),
        ((lines_spec(grid) >> 15) & 7) == ut3_line_occupancy(grid, 6, 7, 8),
        ((lines_spec(grid) >> 18) & 7) == ut3_line_occupancy(grid, 0, 4, 8),
        ((lines_spec(grid) >> 21) & 7) == ut3_line_occupancy(grid, 2, 4, 6),
{
    let lt = lines_spec(grid);
    assert({
        let ls = ((if grid & 1 == 1 {
        0b_000_100_000_000_100_000_000_100u64
    } else {
        0u64
    }) + (if (grid >> 1) & 1 == 1 {
        0b_000_000_000_000_010_000_100_000u64
    } else {
        0u64
    }) + (if (grid >> 2) & 1 == 1 {
        0b_100_000_000_000_001_100_000_000u64
    } else {
        0u64
    }) + (if (grid >> 3) & 1 == 1 {
        0b_000_000_000_100_000_000_000_010u64
    } else {
        0u64
    }) + (if (grid >> 4) & 1 == 1 {
        0b_010_010_000_010_000_000_010_000u64
    } else {
        0u64
    }) + (if (grid >> 5) & 1 == 1 {
        0b_000_000_000_001_000_010_000_000u64
    } else {
        0u64
    }) + (if (grid >> 6) & 1 == 1 {
        0b_001_000_100_000_000_000_000_001u64
    } else {
        0u64
    }) + (if (grid >> 7) & 1 == 1 {
        0b_000_000_010_000_000_000_001_000u64
    } else {
        0u64
    }) + (if (grid >> 8) & 1 == 1 {
        0b_000_001_001_000_000_001_000_000u64
    } else {
        0u64
    })) as u64;
        (ls & 7) == ((((grid >> 0) & 1) << 2) | (((grid >> 3) & 1) << 1) | ((grid >> 6) & 1))
        && ((ls >> 3) & 7) == ((((grid >> 1) & 1) << 2) | (((grid >> 4) & 1) << 1) | ((grid >> 7) & 1))
        && ((ls >> 6) & 7) == ((((grid >> 2) & 1) << 2) | (((grid >> 5) & 1) << 1) | ((grid >> 8) & 1))
        && ((ls >> 9) & 7) == ((((grid >> 0) & 1) << 2) | (((grid >> 1) & 1) << 1) | ((grid >> 2) & 1))
        && ((ls >> 12) & 7) == ((((grid >> 3) & 1) << 2) | (((grid >> 4) & 1) << 1) | ((grid >> 5) & 1))
        && ((ls >> 15) & 7) == ((((grid >> 6) & 1) << 2) | (((grid >> 7) & 1) << 1) | ((grid >> 8) & 1))
        && ((ls >> 18) & 7) == ((((grid >> 0) & 1) << 2) | (((grid >> 4) & 1) << 1) | ((grid >> 8) & 1))
        && ((ls >> 21) & 7) == ((((grid >> 2) & 1) << 2) | (((grid >> 4) & 1) << 1) | ((grid >> 6) & 1))
    }) by (bit_vector);
}

/// The eight completed lines of a three-by-three grid, stated directly.
pub open spec fn ut3_line_complete(grid: u64) -> bool {
    ||| (grid & 0b_000_000_111u64) == 0b_000_000_111u64
    ||| (grid & 0b_000_111_000u64) == 0b_000_111_000u64
    ||| (grid & 0b_111_000_000u64) == 0b_111_000_000u64
    ||| (grid & 0b_001_001_001u64) == 0b_001_001_001u64
    ||| (grid & 0b_010_010_010u64) == 0b_010_010_010u64
    ||| (grid & 0b_100_100_100u64) == 0b_100_100_100u64
    ||| (grid & 0b_100_010_001u64) == 0b_100_010_001u64
    ||| (grid & 0b_001_010_100u64) == 0b_001_010_100u64
}

/// The bit-parallel occupancy test agrees with the direct statement: a grid
/// holds a completed line exactly when one of the eight rows, columns or
/// diagonals is fully occupied.
pub proof fn lemma_line_presence_is_line_complete(grid: u64)
    ensures
        line_presence_spec(grid) == ut3_line_complete(grid),
{
    assert((0 != ((0b10110110u64 | (if grid & 1 == 1 {
        0xffu64
    } else {
        0u64
    })) & (0b11101110u64 | (if (grid >> 1) & 1 == 1 {
        0xffu64
    } else {
        0u64
    })) & (0b01011110u64 | (if (grid >> 2) & 1 == 1 {
        0xffu64
    } else {
        0u64
    })) & (0b11110101u64 | (if (grid >> 3) & 1 == 1 {
        0xffu64
    } else {
        0u64
    })) & (0b00101101u64 | (if (grid >> 4) & 1 == 1 {
        0xffu64
    } else {
        0u64
    })) & (0b11011101u64 | (if (grid >> 5) & 1 == 1 {
        0xffu64
    } else {
        0u64
    })) & (0b01110011u64 | (if (grid >> 6) & 1 == 1 {
        0xffu64
    } else {
        0u64
    })) & (0b11101011u64 | (if (grid >> 7) & 1 == 1 {
        0xffu64
    } else {
        0u64
    })) & (0b10011011u64 | (if (grid >> 8) & 1 == 1 {
        0xffu64
    } else {
        0u64
    })))) == (((grid & 0b_000_000_111u64) == 0b_000_000_111u64) || ((grid & 0b_000_111_000u64) == 0b_000_111_000u64) || ((grid & 0b_111_000_000u64) == 0b_111_000_000u64) || ((grid & 0b_001_001_001u64) == 0b_001_001_001u64) || ((grid & 0b_010_010_010u64) == 0b_010_010_010u64) || ((grid & 0b_100_100_100u64) == 0b_100_100_100u64) || ((grid & 0b_100_010_001u64) == 0b_100_010_001u64) || ((grid & 0b_001_010_100u64) == 0b_001_010_100u64))) by (bit_vector);
}

/// The game board: the mover's marks, the opponent's marks, and the shared
/// word holding the last two small boards, both large boards, and the zone.
#[derive(Clone, Copy, Debug, PartialEq, Eq, Structural)]
pub struct Ut3Board {
    pub us: u64,
    pub them: u64,
    pub share: u64,
}

impl Ut3Board {
    /// For each of the eight lines of a small board, the occupancy mask of
    /// its three cells (see [`lemma_lines_are_occupancies`]).
    pub fn lines(grid: u64) -> (r: u64)
        ensures
            r == lines_spec(grid),
            (r & 7) == ut3_line_occupancy(grid, 0, 3, 6),
            ((r >> 3) & 7) == ut3_line_occupancy(grid, 1, 4, 7),
            ((r >> 6) & 7) == ut3_line_occupancy(grid, 2, 5, 8),
            ((r >> 9) & 7) == ut3_line_occupancy(grid, 0, 1, 2),
            ((r >> 12) & 7) == ut3_line_occupancy(grid, 3, 4, 5),
            ((r >> 15) & 7) == ut3_line_occupancy(grid, 6, 7, 8),
            ((r >> 18) & 7) == ut3_line_occupancy(grid, 0, 4, 8),
            ((r >> 21) & 7) == ut3_line_occupancy(grid, 2, 4, 6),
    {
        proof {
            lemma_lines_are_occupancies(grid);
        }
        (if grid & 1 == 1 {
            0b_000_100_000_000_100_000_000_100u64
        } else {
            0u64
        }) + (if (grid >> 1) & 1 == 1 {
            0b_000_000_000_000_010_000_100_000u64
        } else {
            0u64
        }) + (if (grid >> 2) & 1 == 1 {
            0b_100_000_000_000_001_100_000_000u64
        } else {
            0u64
        }) + (if (grid >> 3) & 1 == 1 {
            0b_000_000_000_100_000_000_000_010u64
        } else {
            0u64
        }) + (if (grid >> 4) & 1 == 1 {
            0b_010_010_000_010_000_000_010_000u64
        } else {
            0u64
        }) + (if (grid >> 5) & 1 == 1 {
            0b_000_000_000_001_000_010_000_000u64
        } else {
            0u64
        }) + (if (grid >> 6) & 1 == 1 {
            0b_001_000_100_000_000_000_000_001u64
        } else {
            0u64
        }) + (if (grid >> 7) & 1 == 1 {
            0b_000_000_010_000_000_000_001_000u64
        } else {
            0u64
        }) + (if (grid >> 8) & 1 == 1 {
            0b_000_001_001_000_000_001_000_000u64
        } else {
            0u64
        })
    }

    /// Whether a small board holds a completed line.
    pub fn line_presence(grid: u64) -> (r: bool)
        ensures
            r == line_presence_spec(grid),
            r == ut3_line_complete(grid),
    {
        proof {
            lemma_line_presence_is_line_complete(grid);
        }
        0 != ((0b10110110u64 | (if grid & 1 == 1 {
            0xffu64
        } else {
            0u64
        })) & (0b11101110u64 | (if (grid >> 1) & 1 == 1 {
            0xffu64
        } else {
            0u64
        })) & (0b01011110u64 | (if (grid >> 2) & 1 == 1 {
            0xffu64
        } else {
            0u64
        })) & (0b11110101u64 | (if (grid >> 3) & 1 == 1 {
            0xffu64
        } else {
            0u64
        })) & (0b00101101u64 | (if (grid >> 4) & 1 == 1 {
            0xffu64
        } else {
            0u64
        })) & (0b11011101u64 | (if (grid >> 5) & 1 == 1 {
            0xffu64
        } else {
            0u64
        })) & (0b01110011u64 | (if (grid >> 6) & 1 == 1 {
            0xffu64
        } else {
            0u64
        })) & (0b11101011u64 | (if (grid >> 7) & 1 == 1 {
            0xffu64
        } else {
            0u64
        })) & (0b10011011u64 | (if (grid >> 8) & 1 == 1 {
            0xffu64
        } else {
            0u64
        })))
    }
}

/// The successor board after placing the encoded mark, scoring any finished
/// small board, selecting the next zone, and flipping the sides.
pub open spec fn ut3_play_spec(b: Ut3Board, mv: u64) -> Ut3Board {
    let us0 = b.us;
    let them = b.them;
    let share_a = if mv > 62 {
        b.share | (1u64 << ((mv - 63) as u64))
    } else {
        b.share
    };
    let us_a = if mv > 62 {
        us0
    } else {
        us0 | (1u64 << mv)
    };
    let line_occupancy = if mv > 62 {
        line_presence_spec(share_a >> ((9 * (mv / 9) - 63) as u64))
    } else {
        line_presence_spec(us_a >> ((9 * (mv / 9)) as u64))
    };
    let share_b = if line_occupancy {
        share_a | (1u64 << ((36 + mv / 9) as u64))
    } else {
        share_a
    };
    let next_chunk = if mv % 9 > 6 {
        ((share_b | (share_b >> 18)) >> ((9 * ((mv % 9) - 7)) as u64)) & CHUNK
    } else {
        ((us_a | them) >> ((9 * (mv % 9)) as u64)) & CHUNK
    };
    let zone = if next_chunk == CHUNK || (((share_b | (share_b >> 9)) >> ((36 + mv % 9) as u64))
        & 1) == 1 {
        ZONE_ANY
    } else {
        (mv % 9) as u64
    };
    let share_c = ((share_b & DBLCHUNK) << 18) | ((share_b >> 18) & DBLCHUNK) | ((share_b & (
    CHUNK << 45)) >> 9) | ((share_b & (CHUNK << 36)) << 9) | (zone << 54);
    Ut3Board { us: them, them: us_a, share: share_c }
}

impl GamePosition for Ut3Board {
    type Move = u64;

    type Params = ();

    open spec fn move_ok(self, mv: u64) -> bool {
        mv < 81
    }

    open spec fn play_spec(self, mv: u64) -> Ut3Board {
        ut3_play_spec(self, mv)
    }

    open spec fn start_spec(params: ()) -> Ut3Board {
        Ut3Board { us: 0u64, them: 0u64, share: ZONE_ANY << 54 }
    }

    fn startpos(params: ()) -> (pos: Self) {
        Self { us: 0u64, them: 0u64, share: ZONE_ANY << 54 }
    }

    fn play_move(&self, mv: u64) -> (next: Self) {
        let us0 = self.us;
        let them = self.them;
        let mut us = us0;
        let mut share = self.share;
        let line_occupancy = if mv > 62 {
            share = share | (1u64 << (mv - 63));
            Self::line_presence(share >> (9 * (mv / 9) - 63))
        } else {
            us = us | (1u64 << mv);
            Self::line_presence(us >> (9 * (mv / 9)))
        };
        if line_occupancy {
            share = share | (1u64 << (36 + mv / 9));
        }
        let next_chunk = if mv % 9 > 6 {
            ((share | (share >> 18)) >> (9 * ((mv % 9) - 7))) & CHUNK
        } else {
            ((us | them) >> (9 * (mv % 9))) & CHUNK
        };
        let zone = if next_chunk == CHUNK || (((share | (share >> 9)) >> (36 + mv % 9)) & 1) == 1 {
            ZONE_ANY
        } else {
            mv % 9
        };
        share = ((share & DBLCHUNK) << 18) | ((share >> 18) & DBLCHUNK) | ((share & (CHUNK << 45))
            >> 9) | ((share & (CHUNK << 36)) << 9) | (zone << 54);
        Self { us: them, them: us, share }
    }
}

/// Whether square `i` is open on `b` under the given zone: the square is
/// unoccupied and, when every zone is allowed, its small board is not
/// already decided.
pub open spec fn ut3_open_at(b: Ut3Board, zone: u64, i: int) -> bool {
    let nw_to_sw = b.us | b.them;
    let s_to_se = (b.share >> 18) | b.share;
    let large = (b.share >> 36) | (b.share >> 45);
    if zone == ZONE_ANY {
        if i < 63 {
            ((nw_to_sw >> (i as u64)) & 1) == 0 && ((large >> ((i / 9) as u64)) & 1) == 0
        } else {
            ((s_to_se >> ((i - 63) as u64)) & 1) == 0 && ((large >> ((i / 9) as u64)) & 1) == 0
        }
    } else if zone == 7 || zone == 8 {
        ((s_to_se >> ((i - 63) as u64)) & 1) == 0
    } else {
        ((nw_to_sw >> (i as u64)) & 1) == 0
    }
}

/// The open squares of `[lo, hi)` under the given zone, in ascending order.
pub open spec fn ut3_moves_upto(b: Ut3Board, zone: u64, lo: int, hi: int) -> Seq<u64>
    decreases hi - lo,
{
    if hi <= lo {
        Seq::empty()
    } else {
        ut3_moves_upto(b, zone, lo, hi - 1) + (if ut3_open_at(b, zone, hi - 1) {
            seq![(hi - 1) as u64]
        } else {
            Seq::empty()
        })
    }
}

/// Every collected square index lies in the scanned range.
pub proof fn lemma_ut3_moves_range(b: Ut3Board, zone: u64, lo: int, hi: int)
    requires
        0 <= lo,
        hi <= 81,
    ensures
        forall|j: int| 0 <= j < ut3_moves_upto(b, zone, lo, hi).len()
            ==> lo <= #[trigger] ut3_moves_upto(b, zone, lo, hi)[j] < hi,
    decreases hi - lo,
{
    if hi > lo {
        lemma_ut3_moves_range(b, zone, lo, hi - 1);
        let s1 = ut3_moves_upto(b, zone, lo, hi - 1);
        let s = ut3_moves_upto(b, zone, lo, hi);
        assert(s == s1 + (if ut3_open_at(b, zone, hi - 1) {
            seq![(hi - 1) as u64]
        } else {
            Seq::<u64>::empty()
        }));
        assert forall|j: int| 0 <= j < s.len() implies lo <= #[trigger] s[j] < hi by {
            if j < s1.len() {
                assert(s[j] == s1[j]);
            } else {
                assert(s[j] == (hi - 1) as u64);
            }
        }
    }
}

/// The full legal-move list of a board: empty once either large board holds
/// a line, otherwise the open squares of the allowed zone (or of the whole
/// board, when any zone is allowed).
pub open spec fn ut3_moves_spec(b: Ut3Board) -> Seq<u64> {
    let zone = (b.share >> 54) & 0b1111;
    if line_presence_spec(b.share >> 36) || line_presence_spec(b.share >> 45) {
        Seq::empty()
    } else if zone == ZONE_ANY {
        ut3_moves_upto(b, zone, 0, 81)
    } else if zone <= 8 {
        ut3_moves_upto(b, zone, 9 * (zone as int), 9 * (zone as int) + 9)
    } else {
        Seq::empty()
    }
}

/// The handler for ultimate tic-tac-toe: two tables over all pairs of small
/// board occupancies, one scoring the large board, one a small board.
pub struct Ut3Handler {
    large_table: Vec<i64>,
    small_table: Vec<i64>,
}

/// The sum of the small-board scores of the zones from `i` on, skipping
/// decided or full zones.
pub closed spec fn ut3_small_sum(h: &Ut3Handler, b: Ut3Board, large: u64, i: int) -> int
    decreases 9 - i,
{
    if i >= 9 || i < 0 {
        0
    } else {
        let us_data = if i < 7 {
            (b.us >> ((9 * i) as u64)) & CHUNK
        } else {
            (b.share >> ((9 * i - 63) as u64)) & CHUNK
        };
        let them_data = if i < 7 {
            (b.them >> ((9 * i) as u64)) & CHUNK
        } else {
            (b.share >> ((9 * i - 45) as u64)) & CHUNK
        };
        let term: int = if ((large >> (i as u64)) & 1) == 1 || (us_data | them_data) == CHUNK {
            0
        } else {
            h.small_table@[((them_data << 9) | us_data) as int] as int
        };
        term + ut3_small_sum(h, b, large, i + 1)
    }
}

/// The tail of the zone sum is bounded by the table bound per zone.
proof fn lemma_ut3_small_sum_bound(h: &Ut3Handler, b: Ut3Board, large: u64, i: int)
    requires
        forall|j: int| 0 <= j < h.small_table@.len()
            ==> -10000 <= #[trigger] h.small_table@[j] <= 10000,
        h.small_table@.len() == 262144,
    ensures
        i <= 9 ==> -10000 * (9 - i) <= ut3_small_sum(h, b, large, i) <= 10000 * (9 - i),
        i >= 9 ==> ut3_small_sum(h, b, large, i) == 0,
    decreases 9 - i,
{
    if i >= 9 || i < 0 {
        if i < 0 {
            lemma_ut3_small_sum_bound(h, b, large, 0);
        }
    } else {
        lemma_ut3_small_sum_bound(h, b, large, i + 1);
        let us_data = if i < 7 {
            (b.us >> ((9 * i) as u64)) & CHUNK
        } else {
            (b.share >> ((9 * i - 63) as u64)) & CHUNK
        };
        let them_data = if i < 7 {
            (b.them >> ((9 * i) as u64)) & CHUNK
        } else {
            (b.share >> ((9 * i - 45) as u64)) & CHUNK
        };
        lemma_and_le_mask(if i < 7 {
            b.us >> ((9 * i) as u64)
        } else {
            b.share >> ((9 * i - 63) as u64)
        }, CHUNK);
        lemma_and_le_mask(if i < 7 {
            b.them >> ((9 * i) as u64)
        } else {
            b.share >> ((9 * i - 45) as u64)
        }, CHUNK);
        assert(((them_data << 9u64) | us_data) <= 0x3ffffu64) by (bit_vector)
            requires
                us_data <= 511u64,
                them_data <= 511u64,
        ;
        let idx = ((them_data << 9) | us_data) as int;
        assert(0 <= idx < 262144);
        assert(-10000 <= h.small_table@[idx] <= 10000);
        assert(ut3_small_sum(h, b, large, i) == (if ((large >> (i as u64)) & 1) == 1 || (us_data
            | them_data) == CHUNK {
            0int
        } else {
            h.small_table@[idx] as int
        }) + ut3_small_sum(h, b, large, i + 1));
        assert(10000 * (9 - i) == 10000 + 10000 * (9 - (i + 1))) by (nonlinear_arith);
        assert(-10000 * (9 - i) == -10000 + -10000 * (9 - (i + 1))) by (nonlinear_arith);
    }
}

/// The static evaluation: the large-board score, adjusted toward quicker
/// wins and later losses when decisive, otherwise the large score plus the
/// undecided small boards' scores.
pub closed spec fn ut3_eval_spec(h: &Ut3Handler, b: Ut3Board, depth: int, max_depth: int) -> i64 {
    let eval = h.large_table@[((b.share >> 36) & DBLCHUNK) as int] as int;
    if eval == OUTCOME_WIN {
        (eval - (max_depth - depth)) as i64
    } else if eval == OUTCOME_LOSS {
        (eval + (max_depth - depth)) as i64
    } else {
        let large = ((b.share >> 36) | (b.share >> 45)) & CHUNK;
        if large == CHUNK {
            OUTCOME_DRAW
        } else {
            (eval + ut3_small_sum(h, b, large, 0)) as i64
        }
    }
}

impl GameHandler<Ut3Board> for Ut3Handler {
    type Params = ();

    closed spec fn wf(&self) -> bool {
        &&& self.large_table@.len() == 262144
        &&& self.small_table@.len() == 262144
        &&& forall|j: int| 0 <= j < self.large_table@.len()
            ==> (#[trigger] self.large_table@[j] == OUTCOME_WIN
                || self.large_table@[j] == OUTCOME_LOSS
                || -10000 <= self.large_table@[j] <= 10000)
        &&& forall|j: int| 0 <= j < self.small_table@.len()
            ==> -10000 <= #[trigger] self.small_table@[j] <= 10000
    }

    open spec fn eval_min(&self) -> i64 {
        OUTCOME_LOSS
    }

    open spec fn eval_max(&self) -> i64 {
        OUTCOME_WIN
    }

    open spec fn eval_eps(&self) -> i64 {
        1i64
    }

    open spec fn depth_ok(&self, max_depth: int) -> bool {
        max_depth <= 100000
    }

    open spec fn params_ok(params: ()) -> bool {
        true
    }

    closed spec fn moves_spec(&self, pos: Ut3Board) -> Seq<u64> {
        ut3_moves_spec(pos)
    }

    closed spec fn eval_spec(&self, pos: Ut3Board, depth: int, max_depth: int) -> i64 {
        ut3_eval_spec(self, pos, depth, max_depth)
    }

    proof fn wf_facts(&self) {
        assert forall|pos: Ut3Board, depth: int, max_depth: int|
            0 <= depth <= max_depth && self.depth_ok(max_depth)
                implies self.eval_min() <= #[trigger] self.eval_spec(pos, depth, max_depth)
                <= self.eval_max() by {
            lemma_and_le_mask(pos.share >> 36, DBLCHUNK);
            lemma_ut3_small_sum_bound(
                self,
                pos,
                ((pos.share >> 36) | (pos.share >> 45)) & CHUNK,
                0,
            );
        }
        assert forall|pos: Ut3Board, i: int|
            0 <= i < self.moves_spec(pos).len()
                implies pos.move_ok(#[trigger] self.moves_spec(pos)[i]) by {
            let zone = (pos.share >> 54) & 0b1111;
            if !(line_presence_spec(pos.share >> 36) || line_presence_spec(pos.share >> 45)) {
                if zone == ZONE_ANY {
                    lemma_ut3_moves_range(pos, zone, 0, 81);
                } else if zone <= 8 {
                    lemma_ut3_moves_range(pos, zone, 9 * (zone as int), 9 * (zone as int) + 9);
                }
            }
        }
    }

    #[verifier::loop_isolation(false)]
    fn new(params: ()) -> (h: Self) {
        let mut large_table: Vec<i64> = Vec::new();
        let mut small_table: Vec<i64> = Vec::new();
        let mut z: usize = 0;
        while z < 262144
            invariant
                z <= 262144,
                large_table@.len() == z,
                small_table@.len() == z,
                forall|j: int| 0 <= j < z ==> #[trigger] large_table@[j] == 0,
                forall|j: int| 0 <= j < z ==> #[trigger] small_table@[j] == 0,
            decreases 262144 - z,
        {
            large_table.push(0);
            small_table.push(0);
            z = z + 1;
        }
        // The bit counts of every nine-bit pattern.
        let mut pop_count: Vec<i64> = Vec::new();
        let mut p: u64 = 0;
        while p < 512
            invariant
                p <= 512,
                pop_count@.len() == p,
                forall|j: int| 0 <= j < pop_count@.len()
                    ==> 0 <= #[trigger] pop_count@[j] <= 9,
            decreases 512 - p,
        {
            let mut acc: i64 = 0;
            let mut q: u64 = 0;
            while q < 9
                invariant
                    q <= 9,
                    0 <= acc <= q,
                decreases 9 - q,
            {
                proof {
                    let pp = p;
                    let qq = q;
                    assert(((pp >> qq) & 1u64) <= 1u64) by (bit_vector);
                }
                acc = acc + (((p >> q) & 1) as i64);
                q = q + 1;
            }
            pop_count.push(acc);
            p = p + 1;
        }
        let mut us: u64 = 0;
        while us < 512
            invariant
                us <= 512,
                large_table@.len() == 262144,
                small_table@.len() == 262144,
                pop_count@.len() == 512,
                forall|j: int| 0 <= j < pop_count@.len()
                    ==> 0 <= #[trigger] pop_count@[j] <= 9,
                forall|j: int| 0 <= j < 262144
                    ==> (#[trigger] large_table@[j] == OUTCOME_WIN
                        || large_table@[j] == OUTCOME_LOSS
                        || -10000 <= large_table@[j] <= 10000),
                forall|j: int| 0 <= j < 262144
                    ==> -10000 <= #[trigger] small_table@[j] <= 10000,
            decreases 512 - us,
        {
            let mut them: u64 = 0;
            while them < 512
                invariant
                    us < 512,
                    them <= 512,
                    large_table@.len() == 262144,
                    small_table@.len() == 262144,
                    pop_count@.len() == 512,
                    forall|j: int| 0 <= j < pop_count@.len()
                        ==> 0 <= #[trigger] pop_count@[j] <= 9,
                    forall|j: int| 0 <= j < 262144
                        ==> (#[trigger] large_table@[j] == OUTCOME_WIN
                            || large_table@[j] == OUTCOME_LOSS
                            || -10000 <= large_table@[j] <= 10000),
                    forall|j: int| 0 <= j < 262144
                        ==> -10000 <= #[trigger] small_table@[j] <= 10000,
                decreases 512 - them,
            {
                let us_lines = Ut3Board::lines(us);
                let them_lines = Ut3Board::lines(them);

                let mut eval_large: i64 = 0;
                let mut eval_small: i64 = 0;
                let mut us_won = false;
                let mut them_won = false;
                let mut li: u64 = 0;
                while li < 8
                    invariant
                        li <= 8,
                        pop_count@.len() == 512,
                        forall|j: int| 0 <= j < pop_count@.len()
                            ==> 0 <= #[trigger] pop_count@[j] <= 9,
                        -90 * li <= eval_large <= 90 * li,
                        -8 * li <= eval_small <= 8 * li,
                    decreases 8 - li,
                {
                    if !us_won && !them_won {
                        proof {
                            lemma_and_le_mask(us_lines >> (3 * li), LINE);
                            lemma_and_le_mask(them_lines >> (3 * li), LINE);
                        }
                        let us_count = pop_count[((us_lines >> (3 * li)) & LINE) as usize];
                        let them_count = pop_count[((them_lines >> (3 * li)) & LINE) as usize];
                        if us_count != 0 && them_count != 0 {
                            // A blocked line scores nothing.
                        } else if us_count == 3 {
                            us_won = true;
                        } else if them_count == 3 {
                            them_won = true;
                        } else {
                            eval_large = eval_large + (if us_count == 2 {
                                BIG_TWO_COUNT
                            } else if us_count == 1 {
                                BIG_ONE_COUNT
                            } else {
                                0
                            }) - (if them_count == 2 {
                                BIG_TWO_COUNT
                            } else if them_count == 1 {
                                BIG_ONE_COUNT
                            } else {
                                0
                            });
                            eval_small = eval_small + (if us_count == 2 {
                                SMALL_TWO_COUNT
                            } else if us_count == 1 {
                                SMALL_ONE_COUNT
                            } else {
                                0
                            }) - (if them_count == 2 {
                                SMALL_TWO_COUNT
                            } else if them_count == 1 {
                                SMALL_ONE_COUNT
                            } else {
                                0
                            });
                        }
                    }
                    li = li + 1;
                }
                proof {
                    lemma_and_le_mask(us, CORNER_MASK);
                    lemma_and_le_mask(them, CORNER_MASK);
                    lemma_and_le_mask(us, EDGE_MASK);
                    lemma_and_le_mask(them, EDGE_MASK);
                    lemma_and_le_mask(us, CENTRE_MASK);
                    lemma_and_le_mask(them, CENTRE_MASK);
                    let a = us;
                    let c = them;
                    assert((a | c) < 512u64) by (bit_vector)
                        requires
                            a < 512u64,
                            c < 512u64,
                    ;
                }
                let eval_pos = CORNER * (pop_count[(us & CORNER_MASK) as usize] - pop_count[(them
                    & CORNER_MASK) as usize]) + EDGE * (pop_count[(us & EDGE_MASK) as usize]
                    - pop_count[(them & EDGE_MASK) as usize]) + CENTRE * (pop_count[(us
                    & CENTRE_MASK) as usize] - pop_count[(them & CENTRE_MASK) as usize]);
                let idx = ((them as usize) * 512) + (us as usize);
                if us_won {
                    large_table[idx] = OUTCOME_WIN;
                } else if them_won {
                    large_table[idx] = OUTCOME_LOSS;
                } else if pop_count[(us | them) as usize] == 9 {
                    large_table[idx] = OUTCOME_DRAW;
                } else {
                    large_table[idx] = eval_large + eval_pos * SQ_BIG;
                    small_table[idx] = eval_small + eval_pos;
                }
                them = them + 1;
            }
            us = us + 1;
        }
        Self { large_table, small_table }
    }

    fn eval_minimum(&self) -> (r: i64) {
        OUTCOME_LOSS
    }

    fn eval_maximum(&self) -> (r: i64) {
        OUTCOME_WIN
    }

    fn eval_epsilon(&self) -> (r: i64) {
        1
    }

    #[verifier::loop_isolation(false)]
    fn get_legal_moves(&self, pos: Ut3Board) -> (moves: Vec<u64>) {
        let mut moves: Vec<u64> = Vec::new();
        if Ut3Board::line_presence(pos.share >> 36) || Ut3Board::line_presence(pos.share >> 45) {
            return moves;
        }
        let zone = (pos.share >> 54) & 0b1111;
        proof {
            lemma_and_le_mask(pos.share >> 54, 0b1111);
        }
        if zone > 9 {
            // A zone outside the board arises only from a corrupted word.
            assert(moves@ =~= self.moves_spec(pos));
            return moves;
        }
        let lo: u64 = if zone == ZONE_ANY {
            0
        } else {
            9 * zone
        };
        let hi: u64 = if zone == ZONE_ANY {
            81
        } else {
            9 * zone + 9
        };
        let mut i: u64 = lo;
        while i < hi
            invariant
                lo <= i <= hi,
                moves@ == ut3_moves_upto(pos, zone, lo as int, i as int),
            decreases hi - i,
        {
            let nw_to_sw = pos.us | pos.them;
            let s_to_se = (pos.share >> 18) | pos.share;
            let large = (pos.share >> 36) | (pos.share >> 45);
            let open = if zone == ZONE_ANY {
                if i < 63 {
                    ((nw_to_sw >> i) & 1) == 0 && ((large >> (i / 9)) & 1) == 0
                } else {
                    ((s_to_se >> (i - 63)) & 1) == 0 && ((large >> (i / 9)) & 1) == 0
                }
            } else if zone == 7 || zone == 8 {
                ((s_to_se >> (i - 63)) & 1) == 0
            } else {
                ((nw_to_sw >> i) & 1) == 0
            };
            if open {
                moves.push(i);
            }
            i = i + 1;
        }
        proof {
            assert(moves@ =~= self.moves_spec(pos));
        }
        moves
    }

    #[verifier::loop_isolation(false)]
    fn evaluate(&self, pos: Ut3Board, depth: usize, max_depth: usize) -> (r: i64) {
        proof {
            lemma_and_le_mask(pos.share >> 36, DBLCHUNK);
        }
        let eval = self.large_table[((pos.share >> 36) & DBLCHUNK) as usize];
        proof {
            assert(max_depth - depth <= 100000);
        }
        if eval == OUTCOME_WIN {
            return eval - ((max_depth - depth) as i64);
        }
        if eval == OUTCOME_LOSS {
            return eval + ((max_depth - depth) as i64);
        }
        let large = ((pos.share >> 36) | (pos.share >> 45)) & CHUNK;
        proof {
            lemma_and_le_mask((pos.share >> 36) | (pos.share >> 45), CHUNK);
        }
        if large == CHUNK {
            return OUTCOME_DRAW;
        }
        let mut acc: i64 = eval;
        let mut i: u64 = 0;
        proof {
            lemma_ut3_small_sum_bound(self, pos, large, 0);
        }
        while i < 9
            invariant
                i <= 9,
                acc as int + ut3_small_sum(self, pos, large, i as int)
                    == eval as int + ut3_small_sum(self, pos, large, 0),
                -10000 - 10000 * (i as int) <= acc <= 10000 + 10000 * (i as int),
            decreases 9 - i,
        {
            proof {
                lemma_ut3_small_sum_bound(self, pos, large, i as int);
                lemma_ut3_small_sum_bound(self, pos, large, i as int + 1);
            }
            let us_data = if i < 7 {
                (pos.us >> (9 * i)) & CHUNK
            } else {
                (pos.share >> (9 * i - 63)) & CHUNK
            };
            let them_data = if i < 7 {
                (pos.them >> (9 * i)) & CHUNK
            } else {
                (pos.share >> (9 * i - 45)) & CHUNK
            };
            proof {
                lemma_and_le_mask(
                    if i < 7 {
                        pos.us >> ((9 * i) as u64)
                    } else {
                        pos.share >> ((9 * i - 63) as u64)
                    },
                    CHUNK,
                );
                lemma_and_le_mask(
                    if i < 7 {
                        pos.them >> ((9 * i) as u64)
                    } else {
                        pos.share >> ((9 * i - 45) as u64)
                    },
                    CHUNK,
                );
                let ud = us_data;
                let td = them_data;
                assert(((td << 9u64) | ud) <= 0x3ffffu64) by (bit_vector)
                    requires
                        ud <= 511u64,
                        td <= 511u64,
                ;
            }
            proof {
                let idx = ((them_data << 9) | us_data) as int;
                assert(0 <= idx < 262144);
                assert(-10000 <= self.small_table@[idx] <= 10000);
                assert(ut3_small_sum(self, pos, large, i as int) == (if ((large >> i) & 1) == 1
                    || (us_data | them_data) == CHUNK {
                    0int
                } else {
                    self.small_table@[idx] as int
                }) + ut3_small_sum(self, pos, large, i as int + 1));
            }
            if !(((large >> i) & 1) == 1 || (us_data | them_data) == CHUNK) {
                acc = acc + self.small_table[((them_data << 9) | us_data) as usize];
            }
            i = i + 1;
        }
        acc
    }
}

} // verus!
