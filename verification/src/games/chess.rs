//! Chess on bitboards: the position, the side-relative board flip, square
//! and move naming, FEN input and output, and legal-move generation through
//! magic-bitboard attack tables.
//!
//! The position always stores the board from the side to move's point of
//! view (`own` is the mover); `play_move` applies one encoded move and
//! flips.  The handler carries the precomputed sliding-piece attack tables;
//! its constructor validates every magic factor against its table.

use vstd::prelude::*;
use vstd::string::StrSliceExecFns;
use vstd::string::StringExecFns;

verus! {

/// A chess position as bitboards, from the side to move's point of view.
/// `squares` packs both king squares, the en-passant square, the side to
/// move, and the castling rights.
#[derive(Clone, Copy, Debug, PartialEq, Eq, Structural)]
pub struct ChessPos {
    pub pawn: u64,
    pub ortho: u64,
    pub diag: u64,
    pub own: u64,
    pub other: u64,
    pub squares: u64,
    pub half_move: u64,
    pub full_move: u64,
}

/// The en-passant field value meaning no en-passant square.
pub const NO_EN_PASSANT: u64 = 64;

/// Mirrors a bitboard across the horizontal midline of the board, by
/// swapping word halves of shrinking widths.
pub open spec fn flip_bb_spec(bb: u64) -> u64 {
    let b1 = (((bb & 0x00000000ffffffffu64) << 32u64)
        | ((bb >> 32u64) & 0x00000000ffffffffu64)) as u64;
    let b2 = (((b1 & 0x0000ffff0000ffffu64) << 16u64)
        | ((b1 >> 16u64) & 0x0000ffff0000ffffu64)) as u64;
    let b3 = (((b2 & 0x00ff00ff00ff00ffu64) << 8u64)
        | ((b2 >> 8u64) & 0x00ff00ff00ff00ffu64)) as u64;
    b3
}

/// Mirrors a bitboard across the horizontal midline of the board.
pub fn flip_bb(bb: u64) -> (r: u64)
    ensures
        r == flip_bb_spec(bb),
{
    let mut b = bb;
    b = ((b & 0x00000000ffffffff) << 32) | ((b >> 32) & 0x00000000ffffffff);
    b = ((b & 0x0000ffff0000ffff) << 16) | ((b >> 16) & 0x0000ffff0000ffff);
    b = ((b & 0x00ff00ff00ff00ff) << 8) | ((b >> 8) & 0x00ff00ff00ff00ff);
    b
}

/// Mirrors a square index across the horizontal midline: the rank is
/// complemented, the file is kept.
pub open spec fn flip_square_spec(sq: u64) -> u64 {
    (!sq & 0x38) | (sq & 0x07)
}

/// Mirrors a square index across the horizontal midline: the rank is
/// complemented, the file is kept.
pub fn flip_square(sq: u64) -> (r: u64)
    ensures
        r == flip_square_spec(sq),
        r < 64,
{
    proof {
        let s = sq;
        assert(((!s & 0x38u64) | (s & 0x07u64)) < 64u64) by (bit_vector);
    }
    (!sq & 0x38) | (sq & 0x07)
}

/// The file letter of a square index.
pub open spec fn file_char(sq: u64) -> char {
    let f = sq % 8;
    if f == 0 {
        'a'
    } else if f == 1 {
        'b'
    } else if f == 2 {
        'c'
    } else if f == 3 {
        'd'
    } else if f == 4 {
        'e'
    } else if f == 5 {
        'f'
    } else if f == 6 {
        'g'
    } else {
        'h'
    }
}

/// The rank digit of a square index below 64.
pub open spec fn rank_char(sq: u64) -> char {
    let r = (sq / 8) % 8;
    if r == 0 {
        '1'
    } else if r == 1 {
        '2'
    } else if r == 2 {
        '3'
    } else if r == 3 {
        '4'
    } else if r == 4 {
        '5'
    } else if r == 5 {
        '6'
    } else if r == 6 {
        '7'
    } else {
        '8'
    }
}

/// The two-character algebraic name of a square index.
pub open spec fn square_chars(sq: u64) -> Seq<char> {
    seq![file_char(sq), rank_char(sq)]
}

/// The board seen from the other side: every bitboard mirrored, the sides
/// and castling rights swapped, the packed squares adjusted.
pub open spec fn flip_position_spec(p: ChessPos) -> ChessPos {
    let ep = (p.squares >> 12) & 0x7f;
    let ep_flipped = if ep == NO_EN_PASSANT {
        NO_EN_PASSANT
    } else {
        flip_square_spec(ep)
    };
    ChessPos {
        pawn: flip_bb_spec(p.pawn),
        ortho: flip_bb_spec(p.ortho),
        diag: flip_bb_spec(p.diag),
        own: flip_bb_spec(p.other),
        other: flip_bb_spec(p.own),
        squares: (p.squares & (1u64 << 19)) | ((p.squares & (0x5u64 << 21)) >> 1) | ((p.squares
            & (0x5u64 << 20)) << 1) | (ep_flipped << 12) | (flip_square_spec(p.squares & 0x3f)
            << 6) | flip_square_spec((p.squares >> 6) & 0x3f),
        half_move: p.half_move,
        full_move: p.full_move,
    }
}

/// Appends the algebraic name of a square to a string.
fn push_square(out: &mut String, sq: u64)
    requires
        sq < 64,
    ensures
        final(out)@ == old(out)@ + square_chars(sq),
{
    proof {
        reveal_strlit("a");
        reveal_strlit("b");
        reveal_strlit("c");
        reveal_strlit("d");
        reveal_strlit("e");
        reveal_strlit("f");
        reveal_strlit("g");
        reveal_strlit("h");
        reveal_strlit("1");
        reveal_strlit("2");
        reveal_strlit("3");
        reveal_strlit("4");
        reveal_strlit("5");
        reveal_strlit("6");
        reveal_strlit("7");
        reveal_strlit("8");
    }
    let f = sq % 8;
    let r = (sq / 8) % 8;
    let fs: &str = if f == 0 {
        "a"
    } else if f == 1 {
        "b"
    } else if f == 2 {
        "c"
    } else if f == 3 {
        "d"
    } else if f == 4 {
        "e"
    } else if f == 5 {
        "f"
    } else if f == 6 {
        "g"
    } else {
        "h"
    };
    let rs: &str = if r == 0 {
        "1"
    } else if r == 1 {
        "2"
    } else if r == 2 {
        "3"
    } else if r == 3 {
        "4"
    } else if r == 4 {
        "5"
    } else if r == 5 {
        "6"
    } else if r == 6 {
        "7"
    } else {
        "8"
    };
    out.append(fs);
    out.append(rs);
    proof {
        assert(final(out)@ =~= old(out)@ + square_chars(sq));
    }
}

impl ChessPos {
    /// The algebraic name of a square index.
    pub fn square_to_string(sq: u64) -> (r: String)
        requires
            sq < 64,
        ensures
            r@ == square_chars(sq),
    {
        let mut out = String::new();
        push_square(&mut out, sq);
        proof {
            assert(out@ =~= square_chars(sq));
        }
        out
    }

    /// The square index named by the first two characters of `s`: `None`
    /// unless they are a file letter and a rank digit.
    pub fn string_to_square(s: &str) -> (r: Option<u64>)
        requires
            s@.len() >= 2,
        ensures
            match r {
                Some(sq) => sq < 64 && square_chars(sq) =~= seq![s@[0], s@[1]],
                None => forall|sq: u64| sq < 64 ==> #[trigger] square_chars(sq) !~= seq![s@[0], s@[1]],
            },
    {
        let f = s.get_char(0);
        let r = s.get_char(1);
        let file: u64 = match f {
            'a' => 0,
            'b' => 1,
            'c' => 2,
            'd' => 3,
            'e' => 4,
            'f' => 5,
            'g' => 6,
            'h' => 7,
            _ => {
                return None;
            },
        };
        let rank: u64 = match r {
            '1' => 0,
            '2' => 1,
            '3' => 2,
            '4' => 3,
            '5' => 4,
            '6' => 5,
            '7' => 6,
            '8' => 7,
            _ => {
                return None;
            },
        };
        Some(file + 8 * rank)
    }

    /// The standard initial position, from White's point of view.
    pub fn startpos() -> (r: ChessPos)
        ensures
            r == (ChessPos {
                pawn: 0x00ff00000000ff00,
                ortho: 0x8900000000000089,
                diag: 0x2c0000000000002c,
                own: 0x000000000000ffff,
                other: 0xffff000000000000,
                squares: (0xfu64 << 20) | (NO_EN_PASSANT << 12) | (60u64 << 6) | 4,
                half_move: 0,
                full_move: 1,
            }),
    {
        ChessPos {
            pawn: 0x00ff00000000ff00,
            ortho: 0x8900000000000089,
            diag: 0x2c0000000000002c,
            own: 0x000000000000ffff,
            other: 0xffff000000000000,
            squares: (0xf << 20) | (NO_EN_PASSANT << 12) | (60 << 6) | 4,
            half_move: 0,
            full_move: 1,
        }
    }

    /// The same position from the other side's point of view: every
    /// bitboard mirrored, the two sides and their castling rights swapped,
    /// the packed squares adjusted.
    pub fn flip_position(&self) -> (r: ChessPos)
        ensures
            r == flip_position_spec(*self),
    {
        proof {
            let s = self.squares;
            assert(((s >> 12u64) & 0x7fu64) <= 0x7fu64 && ((s >> 6u64) & 0x3fu64) < 64u64
                && (s & 0x3fu64) < 64u64) by (bit_vector);
        }
        let ep = (self.squares >> 12) & 0x7f;
        let ep_flipped = if ep == NO_EN_PASSANT {
            NO_EN_PASSANT
        } else {
            flip_square(ep)
        };
        ChessPos {
            pawn: flip_bb(self.pawn),
            ortho: flip_bb(self.ortho),
            diag: flip_bb(self.diag),
            own: flip_bb(self.other),
            other: flip_bb(self.own),
            squares: (self.squares & (1 << 19))
                | ((self.squares & (0x5 << 21)) >> 1)
                | ((self.squares & (0x5 << 20)) << 1)
                | (ep_flipped << 12)
                | (flip_square(self.squares & 0x3f) << 6)
                | flip_square((self.squares >> 6) & 0x3f),
            half_move: self.half_move,
            full_move: self.full_move,
        }
    }

    /// Applies one encoded move (six bits of origin, six of destination, a
    /// two-bit flag, a two-bit promotion piece) and flips the board to the
    /// new side to move.  The move must be one a move generator produced for
    /// this position; the counters must have headroom.
    pub fn play_move(&self, mv: u64) -> (r: ChessPos)
        requires
            self.half_move < 0xffff_ffff_ffff_ffff,
            self.full_move < 0xffff_ffff_ffff_ffff,
        ensures
            r.full_move == self.full_move + ((self.squares >> 19) & 1),
            r.half_move <= self.half_move + 1,
    {
        let mut pos = *self;

        let (origin, destination) = (mv & 0x3f, (mv >> 6) & 0x3f);
        proof {
            let m = mv;
            assert((m & 0x3fu64) < 64u64 && ((m >> 6u64) & 0x3fu64) < 64u64
                && ((m >> 12u64) & 3u64) < 4u64 && ((m >> 14u64) & 3u64) < 4u64)
                by (bit_vector);
        }

        pos.half_move = pos.half_move + 1;
        proof {
            let s = pos.squares;
            assert(((s >> 19u64) & 1u64) <= 1u64) by (bit_vector);
        }
        pos.full_move = pos.full_move + ((pos.squares >> 19) & 1);
        pos.squares = pos.squares ^ (1 << 19);

        let mut ep_sq = NO_EN_PASSANT;

        if (((pos.own | pos.other) >> destination) & 1) == 1 {
            pos.half_move = 0;
        }

        match origin {
            0 => pos.squares = pos.squares & !(1 << 22),
            4 => pos.squares = pos.squares & !((1 << 22) | (1 << 20)),
            7 => pos.squares = pos.squares & !(1 << 20),
            _ => {},
        }
        match destination {
            0 => pos.squares = pos.squares & !(1 << 22),
            4 => pos.squares = pos.squares & !((1 << 22) | (1 << 20)),
            7 => pos.squares = pos.squares & !(1 << 20),
            56 => pos.squares = pos.squares & !(1 << 23),
            60 => pos.squares = pos.squares & !((1 << 23) | (1 << 21)),
            63 => pos.squares = pos.squares & !(1 << 21),
            _ => {},
        }

        let origin_bb = 1u64 << origin;
        let destination_bb = 1u64 << destination;

        let flag = (mv >> 12) & 3;
        if flag == 0 {
            // A plain move of a king, pawn, or piece.
            if origin == (pos.squares & 0x3f) {
                pos.squares = pos.squares & !0x3f;
                pos.squares = pos.squares | destination;
                pos.own = (pos.own & !origin_bb) | destination_bb;
                pos.other = pos.other & !destination_bb;
                pos.pawn = pos.pawn & !destination_bb;
                pos.ortho = pos.ortho & !destination_bb;
                pos.diag = pos.diag & !destination_bb;
            } else if (pos.pawn & origin_bb) != 0 {
                pos.half_move = 0;
                pos.own = (pos.own & !origin_bb) | destination_bb;
                pos.other = pos.other & !destination_bb;
                pos.pawn = (pos.pawn & !origin_bb) | destination_bb;
                pos.ortho = pos.ortho & !destination_bb;
                pos.diag = pos.diag & !destination_bb;
                if destination == origin + 16 {
                    ep_sq = origin + 8;
                }
            } else if (pos.ortho & pos.diag & origin_bb) != 0 {
                pos.own = (pos.own & !origin_bb) | destination_bb;
                pos.other = pos.other & !destination_bb;
                pos.pawn = pos.pawn & !destination_bb;
                pos.ortho = (pos.ortho & !origin_bb) | destination_bb;
                pos.diag = (pos.diag & !origin_bb) | destination_bb;
            } else if (pos.ortho & origin_bb) != 0 {
                pos.own = (pos.own & !origin_bb) | destination_bb;
                pos.other = pos.other & !destination_bb;
                pos.pawn = pos.pawn & !destination_bb;
                pos.ortho = (pos.ortho & !origin_bb) | destination_bb;
                pos.diag = pos.diag & !destination_bb;
            } else if (pos.diag & origin_bb) != 0 {
                pos.own = (pos.own & !origin_bb) | destination_bb;
                pos.other = pos.other & !destination_bb;
                pos.pawn = pos.pawn & !destination_bb;
                pos.ortho = pos.ortho & !destination_bb;
                pos.diag = (pos.diag & !origin_bb) | destination_bb;
            } else if (pos.own & origin_bb) != 0 {
                pos.own = (pos.own & !origin_bb) | destination_bb;
                pos.other = pos.other & !destination_bb;
                pos.pawn = pos.pawn & !destination_bb;
                pos.ortho = pos.ortho & !destination_bb;
                pos.diag = pos.diag & !destination_bb;
            }
        } else if flag == 1 {
            // A promotion.
            pos.own = (pos.own & !origin_bb) | destination_bb;
            pos.other = pos.other & !destination_bb;
            pos.pawn = pos.pawn & !(destination_bb | origin_bb);
            pos.ortho = pos.ortho & !destination_bb;
            pos.diag = pos.diag & !destination_bb;
            let promote = (mv >> 14) & 3;
            if promote == 0 {
                pos.ortho = pos.ortho | destination_bb;
                pos.diag = pos.diag | destination_bb;
            } else if promote == 1 {
                pos.ortho = pos.ortho | destination_bb;
            } else if promote == 2 {
                pos.diag = pos.diag | destination_bb;
            }
        } else if flag == 2 {
            // Castling, to either side.
            if destination == 2 {
                pos.squares = pos.squares & !0x3f;
                pos.squares = pos.squares | 2;
                pos.squares = pos.squares & !((1 << 22) | (1 << 20));
                pos.ortho = pos.ortho ^ 0x09;
                pos.own = pos.own ^ 0x1d;
            } else if destination == 6 {
                pos.squares = pos.squares & !0x3f;
                pos.squares = pos.squares | 6;
                pos.squares = pos.squares & !((1 << 22) | (1 << 20));
                pos.ortho = pos.ortho ^ 0xa0;
                pos.own = pos.own ^ 0xf0;
            }
        } else {
            // An en-passant capture.
            pos.half_move = 0;
            pos.pawn = pos.pawn ^ (destination_bb | origin_bb | (destination_bb >> 8));
            pos.own = (pos.own & !origin_bb) | destination_bb;
            pos.other = pos.other & !(destination_bb >> 8);
        }
        pos.squares = pos.squares & !0x7f000;
        pos.squares = pos.squares | (ep_sq << 12);

        pos.flip_position()
    }
}

/// Appends the decimal form of a counter to a string, one digit at least.
#[verifier::loop_isolation(false)]
fn push_u64(out: &mut String, n: u64)
    ensures
        final(out)@.len() > old(out)@.len(),
{
    proof {
        reveal_strlit("0");
        reveal_strlit("1");
        reveal_strlit("2");
        reveal_strlit("3");
        reveal_strlit("4");
        reveal_strlit("5");
        reveal_strlit("6");
        reveal_strlit("7");
        reveal_strlit("8");
        reveal_strlit("9");
    }
    if n == 0 {
        out.append("0");
        return;
    }
    let mut digits: Vec<u8> = Vec::new();
    let mut m = n;
    while m > 0
        invariant
            digits@.len() >= 1 || m == n,
            n > 0,
        decreases m,
    {
        digits.push((m % 10) as u8);
        m = m / 10;
    }
    let mut i = digits.len();
    while i > 0
        invariant
            i <= digits@.len(),
            digits@.len() >= 1,
            out@.len() >= old(out)@.len() + (digits@.len() - i),
        decreases i,
    {
        i = i - 1;
        let d = digits[i];
        let ds: &str = if d == 0 {
            "0"
        } else if d == 1 {
            "1"
        } else if d == 2 {
            "2"
        } else if d == 3 {
            "3"
        } else if d == 4 {
            "4"
        } else if d == 5 {
            "5"
        } else if d == 6 {
            "6"
        } else if d == 7 {
            "7"
        } else if d == 8 {
            "8"
        } else {
            "9"
        };
        out.append(ds);
    }
}

/// Parses an unsigned decimal counter from a byte range: `None` on an empty
/// range, a non-digit, or overflow.
fn parse_u64(b: &[u8], from: usize, to: usize) -> (r: Option<u64>)
    requires
        from <= to <= b@.len(),
{
    if from == to {
        return None;
    }
    let mut v: u64 = 0;
    let mut i = from;
    while i < to
        invariant
            from <= i <= to <= b@.len(),
        decreases to - i,
    {
        let c = b[i];
        if c < 48 || c > 57 {
            return None;
        }
        let d = (c - 48) as u64;
        if v > (0xffff_ffff_ffff_ffffu64 - d) / 10 {
            return None;
        }
        v = v * 10 + d;
        i = i + 1;
    }
    Some(v)
}

impl ChessPos {
    /// The FEN form of the position, always written from White's point of
    /// view: piece placement by rank, side to move, castling rights,
    /// en-passant square, and the two move counters.
    #[verifier::loop_isolation(false)]
    pub fn to_fen(&self) -> (r: String)
        ensures
            r@.len() >= 18,
    {
        proof {
            reveal_strlit("P");
            reveal_strlit("N");
            reveal_strlit("B");
            reveal_strlit("R");
            reveal_strlit("Q");
            reveal_strlit("K");
            reveal_strlit("p");
            reveal_strlit("n");
            reveal_strlit("b");
            reveal_strlit("r");
            reveal_strlit("q");
            reveal_strlit("k");
            reveal_strlit("/");
            reveal_strlit(" ");
            reveal_strlit("-");
            reveal_strlit(" w ");
            reveal_strlit(" b ");
        }
        let pos = if ((self.squares >> 19) & 1) == 1 {
            self.flip_position()
        } else {
            *self
        };
        let mut out = String::new();
        let mut rank: u64 = 8;
        while rank > 0
            invariant
                rank <= 8,
                out@.len() >= 8 - rank,
            decreases rank,
        {
            rank = rank - 1;
            let mut file: u64 = 0;
            let mut run: u64 = 0;
            let ghost rank_base = out@.len();
            while file < 8
                invariant
                    file <= 8,
                    run <= file,
                    rank < 8,
                    run == file || out@.len() > rank_base,
                    out@.len() >= rank_base,
                decreases 8 - file,
            {
                let sq = 8 * rank + file;
                let piece: Option<&str> = if ((pos.own >> sq) & 1) == 1 {
                    if (pos.squares & 0x3f) == sq {
                        Some("K")
                    } else if ((pos.pawn >> sq) & 1) == 1 {
                        Some("P")
                    } else if (((pos.ortho & pos.diag) >> sq) & 1) == 1 {
                        Some("Q")
                    } else if ((pos.ortho >> sq) & 1) == 1 {
                        Some("R")
                    } else if ((pos.diag >> sq) & 1) == 1 {
                        Some("B")
                    } else {
                        Some("N")
                    }
                } else if ((pos.other >> sq) & 1) == 1 {
                    if ((pos.squares >> 6) & 0x3f) == sq {
                        Some("k")
                    } else if ((pos.pawn >> sq) & 1) == 1 {
                        Some("p")
                    } else if (((pos.ortho & pos.diag) >> sq) & 1) == 1 {
                        Some("q")
                    } else if ((pos.ortho >> sq) & 1) == 1 {
                        Some("r")
                    } else if ((pos.diag >> sq) & 1) == 1 {
                        Some("b")
                    } else {
                        Some("n")
                    }
                } else {
                    None
                };
                match piece {
                    None => {
                        run = run + 1;
                    },
                    Some(p) => {
                        if run > 0 {
                            push_u64(&mut out, run);
                            run = 0;
                        }
                        out.append(p);
                    },
                }
                file = file + 1;
            }
            if run > 0 {
                push_u64(&mut out, run);
            }
            if rank > 0 {
                out.append("/");
            }
        }
        let flags = pos.squares;
        let ep = (flags >> 12) & 0x7f;
        let side = (flags >> 19) & 1;
        let w_oo = (flags >> 20) & 1;
        let b_oo = (flags >> 21) & 1;
        let w_ooo = (flags >> 22) & 1;
        let b_ooo = (flags >> 23) & 1;

        let side_str: &str = if side == 1 {
            " b "
        } else {
            " w "
        };
        out.append(side_str);
        if (w_oo | b_oo | w_ooo | b_ooo) == 0 {
            out.append("-");
        } else {
            proof {
                let f = flags;
                assert(((f >> 20u64) & 1u64) <= 1u64 && ((f >> 21u64) & 1u64) <= 1u64
                    && ((f >> 22u64) & 1u64) <= 1u64 && ((f >> 23u64) & 1u64) <= 1u64
                    && ((((f >> 20u64) & 1u64) | ((f >> 21u64) & 1u64) | ((f >> 22u64) & 1u64)
                        | ((f >> 23u64) & 1u64)) != 0u64 ==> ((f >> 20u64) & 1u64) == 1u64
                        || ((f >> 21u64) & 1u64) == 1u64
                        || ((f >> 22u64) & 1u64) == 1u64
                        || ((f >> 23u64) & 1u64) == 1u64)) by (bit_vector);
            }
            if w_oo == 1 {
                out.append("K");
            }
            if w_ooo == 1 {
                out.append("Q");
            }
            if b_oo == 1 {
                out.append("k");
            }
            if b_ooo == 1 {
                out.append("q");
            }
        }
        out.append(" ");
        if ep >= 64 {
            out.append("-");
        } else {
            push_square(&mut out, ep);
        }
        out.append(" ");
        push_u64(&mut out, pos.half_move);
        out.append(" ");
        push_u64(&mut out, pos.full_move);
        out
    }

    /// The position a FEN string describes: `None` when the string does not
    /// have four to six whitespace-separated fields, or a field is
    /// malformed.  A position given for Black is flipped to its side to
    /// move, as every position is stored.
    #[verifier::loop_isolation(false)]
    pub fn from_fen(pos_string: &str) -> (r: Option<ChessPos>)
    {
        let b = pos_string.as_bytes();
        // Split into whitespace-separated fields.
        let mut starts: Vec<usize> = Vec::new();
        let mut ends: Vec<usize> = Vec::new();
        let mut i: usize = 0;
        while i < b.len()
            invariant
                i <= b@.len(),
                starts@.len() == ends@.len(),
                forall|q: int| 0 <= q < starts@.len()
                    ==> #[trigger] starts@[q] <= ends@[q] <= b@.len(),
            decreases b@.len() - i,
        {
            if b[i] == 32 || b[i] == 9 || b[i] == 10 || b[i] == 13 {
                i = i + 1;
            } else {
                let start = i;
                while i < b.len() && b[i] != 32 && b[i] != 9 && b[i] != 10 && b[i] != 13
                    invariant
                        start <= i <= b@.len(),
                    decreases b@.len() - i,
                {
                    i = i + 1;
                }
                starts.push(start);
                ends.push(i);
            }
        }
        if starts.len() < 4 || starts.len() > 6 {
            return None;
        }

        let mut pos = ChessPos {
            pawn: 0,
            ortho: 0,
            diag: 0,
            own: 0,
            other: 0,
            squares: 0,
            half_move: 0,
            full_move: 1,
        };

        // Piece placement, rank 8 first.
        let mut rank: u64 = 7;
        let mut file: u64 = 0;
        let mut j = starts[0];
        let row_end = ends[0];
        proof {
            assert(starts@[0] <= ends@[0] <= b@.len());
        }
        while j < row_end
            invariant
                j <= row_end <= b@.len(),
                rank <= 7,
                file <= 8,
            decreases row_end - j,
        {
            let c = b[j];
            if c == 47 {
                // A rank separator.
                if rank == 0 {
                    return None;
                }
                rank = rank - 1;
                file = 0;
            } else if 49 <= c && c <= 56 {
                file = file + (c - 48) as u64;
                if file > 8 {
                    return None;
                }
            } else {
                if file > 7 {
                    return None;
                }
                let sq = 8 * rank + file;
                let bb = 1u64 << sq;
                match c {
                    80 => {
                        // 'P'
                        pos.own = pos.own | bb;
                        pos.pawn = pos.pawn | bb;
                    },
                    78 => {
                        // 'N'
                        pos.own = pos.own | bb;
                    },
                    66 => {
                        // 'B'
                        pos.own = pos.own | bb;
                        pos.diag = pos.diag | bb;
                    },
                    82 => {
                        // 'R'
                        pos.own = pos.own | bb;
                        pos.ortho = pos.ortho | bb;
                    },
                    81 => {
                        // 'Q'
                        pos.own = pos.own | bb;
                        pos.diag = pos.diag | bb;
                        pos.ortho = pos.ortho | bb;
                    },
                    75 => {
                        // 'K'
                        pos.own = pos.own | bb;
                        pos.squares = pos.squares | sq;
                    },
                    112 => {
                        // 'p'
                        pos.other = pos.other | bb;
                        pos.pawn = pos.pawn | bb;
                    },
                    110 => {
                        // 'n'
                        pos.other = pos.other | bb;
                    },
                    98 => {
                        // 'b'
                        pos.other = pos.other | bb;
                        pos.diag = pos.diag | bb;
                    },
                    114 => {
                        // 'r'
                        pos.other = pos.other | bb;
                        pos.ortho = pos.ortho | bb;
                    },
                    113 => {
                        // 'q'
                        pos.other = pos.other | bb;
                        pos.diag = pos.diag | bb;
                        pos.ortho = pos.ortho | bb;
                    },
                    107 => {
                        // 'k'
                        pos.other = pos.other | bb;
                        pos.squares = pos.squares | (sq << 6);
                    },
                    _ => {
                        return None;
                    },
                }
                file = file + 1;
            }
            j = j + 1;
        }

        // Side to move.
        let s1 = starts[1];
        let e1 = ends[1];
        proof {
            assert(starts@[1] <= ends@[1] <= b@.len());
        }
        if e1 - s1 != 1 {
            return None;
        }
        let side_b = b[s1];
        if side_b != 119 && side_b != 98 {
            // Neither 'w' nor 'b'.
            return None;
        }

        // Castling rights.
        let mut cj = starts[2];
        let ce = ends[2];
        while cj < ce
            invariant
                cj <= ce <= b@.len(),
            decreases ce - cj,
        {
            match b[cj] {
                75 => pos.squares = pos.squares | (1 << 20),
                81 => pos.squares = pos.squares | (1 << 22),
                107 => pos.squares = pos.squares | (1 << 21),
                113 => pos.squares = pos.squares | (1 << 23),
                45 => {},
                _ => {
                    return None;
                },
            }
            cj = cj + 1;
        }

        // En-passant square.
        let s3 = starts[3];
        let e3 = ends[3];
        proof {
            assert(starts@[3] <= ends@[3] <= b@.len());
        }
        let ep_len = e3 - s3;
        if ep_len == 1 && b[s3] == 45 {
            pos.squares = pos.squares | (NO_EN_PASSANT << 12);
        } else if ep_len == 2 {
            let fc = b[s3];
            let rc = b[s3 + 1];
            if fc < 97 || fc > 104 || rc < 49 || rc > 56 {
                return None;
            }
            let sq = (fc - 97) as u64 + 8 * ((rc - 49) as u64);
            pos.squares = pos.squares | (sq << 12);
        } else {
            return None;
        }

        // Move counters.
        if starts.len() > 4 {
            proof {
                assert(starts@[4] <= ends@[4] <= b@.len());
            }
            match parse_u64(b, starts[4], ends[4]) {
                Some(h) => {
                    pos.half_move = h;
                },
                None => {
                    return None;
                },
            }
        }
        if starts.len() > 5 {
            proof {
                assert(starts@[5] <= ends@[5] <= b@.len());
            }
            match parse_u64(b, starts[5], ends[5]) {
                Some(f) => {
                    pos.full_move = f;
                },
                None => {
                    return None;
                },
            }
        }

        if side_b == 98 {
            pos.squares = pos.squares | (1 << 19);
            Some(pos.flip_position())
        } else {
            Some(pos)
        }
    }
}

/// The squares a white pawn on `sq` attacks.
pub fn pawn_attacks(sq: u64) -> (r: u64)
    requires
        sq < 64,
{
    match sq {
        0 => 0x200,
        1 => 0x500,
        2 => 0xa00,
        3 => 0x1400,
        4 => 0x2800,
        5 => 0x5000,
        6 => 0xa000,
        7 => 0x4000,
        8 => 0x20000,
        9 => 0x50000,
        10 => 0xa0000,
        11 => 0x140000,
        12 => 0x280000,
        13 => 0x500000,
        14 => 0xa00000,
        15 => 0x400000,
        16 => 0x2000000,
        17 => 0x5000000,
        18 => 0xa000000,
        19 => 0x14000000,
        20 => 0x28000000,
        21 => 0x50000000,
        22 => 0xa0000000,
        23 => 0x40000000,
        24 => 0x200000000,
        25 => 0x500000000,
        26 => 0xa00000000,
        27 => 0x1400000000,
        28 => 0x2800000000,
        29 => 0x5000000000,
        30 => 0xa000000000,
        31 => 0x4000000000,
        32 => 0x20000000000,
        33 => 0x50000000000,
        34 => 0xa0000000000,
        35 => 0x140000000000,
        36 => 0x280000000000,
        37 => 0x500000000000,
        38 => 0xa00000000000,
        39 => 0x400000000000,
        40 => 0x2000000000000,
        41 => 0x5000000000000,
        42 => 0xa000000000000,
        43 => 0x14000000000000,
        44 => 0x28000000000000,
        45 => 0x50000000000000,
        46 => 0xa0000000000000,
        47 => 0x40000000000000,
        48 => 0x200000000000000,
        49 => 0x500000000000000,
        50 => 0xa00000000000000,
        51 => 0x1400000000000000,
        52 => 0x2800000000000000,
        53 => 0x5000000000000000,
        54 => 0xa000000000000000,
        55 => 0x4000000000000000,
        56 => 0x0,
        57 => 0x0,
        58 => 0x0,
        59 => 0x0,
        60 => 0x0,
        61 => 0x0,
        62 => 0x0,
        63 => 0x0,
        _ => 0,
    }
}

/// The squares a knight on `sq` attacks.
pub fn knight_attacks(sq: u64) -> (r: u64)
    requires
        sq < 64,
{
    match sq {
        0 => 0x20400,
        1 => 0x50800,
        2 => 0xa1100,
        3 => 0x142200,
        4 => 0x284400,
        5 => 0x508800,
        6 => 0xa01000,
        7 => 0x402000,
        8 => 0x2040004,
        9 => 0x5080008,
        10 => 0xa110011,
        11 => 0x14220022,
        12 => 0x28440044,
        13 => 0x50880088,
        14 => 0xa0100010,
        15 => 0x40200020,
        16 => 0x204000402,
        17 => 0x508000805,
        18 => 0xa1100110a,
        19 => 0x1422002214,
        20 => 0x2844004428,
        21 => 0x5088008850,
        22 => 0xa0100010a0,
        23 => 0x4020002040,
        24 => 0x20400040200,
        25 => 0x50800080500,
        26 => 0xa1100110a00,
        27 => 0x142200221400,
        28 => 0x284400442800,
        29 => 0x508800885000,
        30 => 0xa0100010a000,
        31 => 0x402000204000,
        32 => 0x2040004020000,
        33 => 0x5080008050000,
        34 => 0xa1100110a0000,
        35 => 0x14220022140000,
        36 => 0x28440044280000,
        37 => 0x50880088500000,
        38 => 0xa0100010a00000,
        39 => 0x40200020400000,
        40 => 0x204000402000000,
        41 => 0x508000805000000,
        42 => 0xa1100110a000000,
        43 => 0x1422002214000000,
        44 => 0x2844004428000000,
        45 => 0x5088008850000000,
        46 => 0xa0100010a0000000,
        47 => 0x4020002040000000,
        48 => 0x400040200000000,
        49 => 0x800080500000000,
        50 => 0x1100110a00000000,
        51 => 0x2200221400000000,
        52 => 0x4400442800000000,
        53 => 0x8800885000000000,
        54 => 0x100010a000000000,
        55 => 0x2000204000000000,
        56 => 0x4020000000000,
        57 => 0x8050000000000,
        58 => 0x110a0000000000,
        59 => 0x22140000000000,
        60 => 0x44280000000000,
        61 => 0x88500000000000,
        62 => 0x10a00000000000,
        63 => 0x20400000000000,
        _ => 0,
    }
}

/// The squares a king on `sq` attacks.
pub fn king_attacks(sq: u64) -> (r: u64)
    requires
        sq < 64,
{
    match sq {
        0 => 0x302,
        1 => 0x705,
        2 => 0xe0a,
        3 => 0x1c14,
        4 => 0x3828,
        5 => 0x7050,
        6 => 0xe0a0,
        7 => 0xc040,
        8 => 0x30203,
        9 => 0x70507,
        10 => 0xe0a0e,
        11 => 0x1c141c,
        12 => 0x382838,
        13 => 0x705070,
        14 => 0xe0a0e0,
        15 => 0xc040c0,
        16 => 0x3020300,
        17 => 0x7050700,
        18 => 0xe0a0e00,
        19 => 0x1c141c00,
        20 => 0x38283800,
        21 => 0x70507000,
        22 => 0xe0a0e000,
        23 => 0xc040c000,
        24 => 0x302030000,
        25 => 0x705070000,
        26 => 0xe0a0e0000,
        27 => 0x1c141c0000,
        28 => 0x3828380000,
        29 => 0x7050700000,
        30 => 0xe0a0e00000,
        31 => 0xc040c00000,
        32 => 0x30203000000,
        33 => 0x70507000000,
        34 => 0xe0a0e000000,
        35 => 0x1c141c000000,
        36 => 0x382838000000,
        37 => 0x705070000000,
        38 => 0xe0a0e0000000,
        39 => 0xc040c0000000,
        40 => 0x3020300000000,
        41 => 0x7050700000000,
        42 => 0xe0a0e00000000,
        43 => 0x1c141c00000000,
        44 => 0x38283800000000,
        45 => 0x70507000000000,
        46 => 0xe0a0e000000000,
        47 => 0xc040c000000000,
        48 => 0x302030000000000,
        49 => 0x705070000000000,
        50 => 0xe0a0e0000000000,
        51 => 0x1c141c0000000000,
        52 => 0x3828380000000000,
        53 => 0x7050700000000000,
        54 => 0xe0a0e00000000000,
        55 => 0xc040c00000000000,
        56 => 0x203000000000000,
        57 => 0x507000000000000,
        58 => 0xa0e000000000000,
        59 => 0x141c000000000000,
        60 => 0x2838000000000000,
        61 => 0x5070000000000000,
        62 => 0xa0e0000000000000,
        63 => 0x40c0000000000000,
        _ => 0,
    }
}

/// The magic factor of the bishop attack table for `sq`.
pub fn bishop_magic(sq: u64) -> (r: u64)
    requires
        sq < 64,
{
    match sq {
        0 => 0xa4406882040823a0,
        1 => 0x5010011501020810,
        2 => 0x90010041100000,
        3 => 0x8060890104020102,
        4 => 0x26021000082100,
        5 => 0x901008410404,
        6 => 0x11090110300421e4,
        7 => 0x10820082202618,
        8 => 0x820106058212140,
        9 => 0x40600400808100,
        10 => 0x9410101108410100,
        11 => 0x802b844400825000,
        12 => 0x2082111040002140,
        13 => 0x60e882080c041000,
        14 => 0x8624044402601088,
        15 => 0x21820088880830,
        16 => 0x805005c054050420,
        17 => 0x8128202008010243,
        18 => 0x5010011501020810,
        19 => 0x401201c04028000,
        20 => 0x1000820281700,
        21 => 0x40120010088400a,
        22 => 0x10041402008e0900,
        23 => 0x2a00109011000,
        24 => 0x250204010e210,
        25 => 0x9410101108410100,
        26 => 0x810820010240010,
        27 => 0x108000502c100,
        28 => 0x180840110802000,
        29 => 0x10004008a41000,
        30 => 0x800850046211000,
        31 => 0x22902444d006808,
        32 => 0x8888824054100400,
        33 => 0x4048041100840101,
        34 => 0x44020100020410,
        35 => 0x10404880080201,
        36 => 0x40028022420020,
        37 => 0xa084821880041000,
        38 => 0x88a0402084101,
        39 => 0x1004204849020100,
        40 => 0x804211200880a000,
        41 => 0x80108420a005020,
        42 => 0x1060820802000500,
        43 => 0x1001044010480202,
        44 => 0x14104202000190,
        45 => 0x6004008083000200,
        46 => 0x9410101108410100,
        47 => 0x61840100480200,
        48 => 0x11090110300421e4,
        49 => 0x9044202200000,
        50 => 0x90010041100000,
        51 => 0xc011850a42020400,
        52 => 0x148b15002020000,
        53 => 0x80902001444134,
        54 => 0x1191100228014202,
        55 => 0x5010011501020810,
        56 => 0x10820082202618,
        57 => 0x21820088880830,
        58 => 0x1000004404c5000,
        59 => 0x80800000020a0a01,
        60 => 0x10d0020200,
        61 => 0x21820180220,
        62 => 0x820106058212140,
        63 => 0xa4406882040823a0,
        _ => 0,
    }
}

/// The magic factor of the rook attack table for `sq`.
pub fn rook_magic(sq: u64) -> (r: u64)
    requires
        sq < 64,
{
    match sq {
        0 => 0x880088040011021,
        1 => 0x6140081000402000,
        2 => 0x2300200240281100,
        3 => 0x4100280410006100,
        4 => 0x80022c00800800,
        5 => 0x480120003800400,
        6 => 0x3880210002004180,
        7 => 0x1200088540220104,
        8 => 0x93800084204009,
        9 => 0x1400020100040,
        10 => 0x1001100c02009,
        11 => 0x42800804100080,
        12 => 0x20e1002800910015,
        13 => 0x8a0808006000c00,
        14 => 0x1004002108020410,
        15 => 0x10c0800a41000880,
        16 => 0x8080014000a0,
        17 => 0x8a8040022000,
        18 => 0x90008012200180,
        19 => 0x1050020100028,
        20 => 0x48008004000880,
        21 => 0x8a0808006000c00,
        22 => 0x40008102126,
        23 => 0x100460004440481,
        24 => 0x8480400080008020,
        25 => 0x1c00200080804000,
        26 => 0x200280500080,
        27 => 0x2000100080800800,
        28 => 0x1000500080010,
        29 => 0x6008200040811,
        30 => 0x8022013400081022,
        31 => 0x10808a00104104,
        32 => 0x420400022800380,
        33 => 0x1c00200080804000,
        34 => 0x1000302001004101,
        35 => 0x1010300083800801,
        36 => 0x10a3802402800800,
        37 => 0x440800600800c00,
        38 => 0x14010644001008,
        39 => 0x4a822843020005a4,
        40 => 0x20a24002848000,
        41 => 0x408482010004000,
        42 => 0x4328100020008080,
        43 => 0x419081001010020,
        44 => 0x20e1002800910015,
        45 => 0x8a28020004008080,
        46 => 0x812100c0001,
        47 => 0x84008104420034,
        48 => 0x420400022800380,
        49 => 0x2400e24001029100,
        50 => 0x200280500080,
        51 => 0x100108058080,
        52 => 0x48008004000880,
        53 => 0x4800200040080,
        54 => 0x8041085003020c00,
        55 => 0x2004281040600,
        56 => 0x321044480013023,
        57 => 0x1000d04001210481,
        58 => 0x200401100082001,
        59 => 0x804050020081001,
        60 => 0x840100121008008d,
        61 => 0x405005208040021,
        62 => 0x1025100800820c,
        63 => 0x440020844902,
        _ => 0,
    }
}

/// The de Bruijn table behind the bit-index lookup; every entry is a
/// square index.
fn log2_table(i: u64) -> (r: u64)
    requires
        i < 64,
    ensures
        r < 64,
{
    match i {
        0 => 0,
        1 => 1,
        2 => 2,
        3 => 7,
        4 => 3,
        5 => 13,
        6 => 8,
        7 => 19,
        8 => 4,
        9 => 25,
        10 => 14,
        11 => 28,
        12 => 9,
        13 => 34,
        14 => 20,
        15 => 40,
        16 => 5,
        17 => 17,
        18 => 26,
        19 => 38,
        20 => 15,
        21 => 46,
        22 => 29,
        23 => 48,
        24 => 10,
        25 => 31,
        26 => 35,
        27 => 54,
        28 => 21,
        29 => 50,
        30 => 41,
        31 => 57,
        32 => 63,
        33 => 6,
        34 => 12,
        35 => 18,
        36 => 24,
        37 => 27,
        38 => 33,
        39 => 39,
        40 => 16,
        41 => 37,
        42 => 45,
        43 => 47,
        44 => 30,
        45 => 53,
        46 => 49,
        47 => 56,
        48 => 62,
        49 => 11,
        50 => 23,
        51 => 32,
        52 => 36,
        53 => 44,
        54 => 52,
        55 => 55,
        56 => 61,
        57 => 22,
        58 => 43,
        59 => 51,
        60 => 60,
        61 => 42,
        62 => 59,
        63 => 58,
        _ => 0,
    }
}

const KINGSIDE_CASTLE_CLEARANCE_MASK: u64 = 0x60;

const KINGSIDE_CASTLE_CHECK_MASK: u64 = 0x70;

const QUEENSIDE_CASTLE_CLEARANCE_MASK: u64 = 0x0e;

const QUEENSIDE_CASTLE_CHECK_MASK: u64 = 0x1c;

const FLAG_NONE: u64 = 0;

const FLAG_PROMOTE: u64 = 1;

const FLAG_CASTLE: u64 = 2;

const FLAG_ENPASSANT: u64 = 3;

const FILE_A: u64 = 0x0101010101010101;

const RANK_1: u64 = 0xff;

const MAJOR_DIAG: u64 = 0x8040201008040201;

const MINOR_DIAG: u64 = 0x0102040810204080;

const EDGES: u64 = FILE_A | (FILE_A << 7) | RANK_1 | (RANK_1 << 56);

const LOG_2_DE_BRUIJN: u64 = 0x218a392cd3d5dbf;

/// Packs a move: six bits of origin, six of destination, a two-bit flag,
/// and a two-bit promotion piece.
fn make_move(origin: u64, dest: u64, flag: u64, promote: u64) -> (r: u64)
    requires
        origin < 64,
        dest < 64,
        flag < 4,
        promote < 4,
    ensures
        r == ((promote << 14) | (flag << 12) | (dest << 6) | origin),
        r < 0x10000,
{
    proof {
        let o = origin;
        let d = dest;
        let f = flag;
        let p = promote;
        assert(((p << 14u64) | (f << 12u64) | (d << 6u64) | o) < 0x10000u64) by (bit_vector)
            requires
                o < 64u64,
                d < 64u64,
                f < 4u64,
                p < 4u64,
        ;
    }
    (promote << 14) | (flag << 12) | (dest << 6) | origin
}

/// Stepping facts for walking a bitboard's set bits from the lowest up.
proof fn lemma_bit_step(b: u64)
    requires
        b != 0,
    ensures
        (b & ((b - 1) as u64)) < b,
        !b <= 0xffff_ffff_ffff_fffe,
{
    assert((b & ((b - 1) as u64)) < b && !b <= 0xffff_ffff_ffff_fffeu64) by (bit_vector)
        requires
            b != 0,
    ;
}

/// The index of a bitboard's single set bit, through the de Bruijn lookup.
fn log2(x: u64) -> (r: u64)
    ensures
        r < 64,
{
    let hashed = x.wrapping_mul(LOG_2_DE_BRUIJN);
    proof {
        let v = hashed;
        assert(v >> 58u64 < 64u64) by (bit_vector);
    }
    log2_table(hashed >> 58)
}

/// One sliding piece's precomputed attack data: the blocker-relevance mask,
/// the magic factor, the index shift, and the table the magic hashes into.
struct SMagic {
    attack_table: Vec<u64>,
    mask: u64,
    magic: u64,
    shift: u64,
}

/// A magic entry is usable when its shift leaves at most twelve index bits
/// and its table covers every index the shift can produce.
spec fn smagic_inv(m: SMagic) -> bool {
    &&& 52 <= m.shift < 64
    &&& m.attack_table@.len() == (1u64 << ((64 - m.shift) as u64))
}

/// A magic hash never indexes past a table sized to its shift.
proof fn lemma_magic_index(x: u64, shift: u64)
    requires
        52 <= shift < 64,
    ensures
        (x >> shift) < (1u64 << ((64 - shift) as u64)),
{
    assert((x >> shift) < (1u64 << ((64 - shift) as u64))) by (bit_vector)
        requires
            52 <= shift < 64u64,
    ;
}

/// The number of set bits of a bitboard.
fn popcount(bb: u64) -> (r: u64)
    ensures
        r <= 64,
{
    let mut count: u64 = 0;
    let mut j: u64 = 0;
    while j < 64
        invariant
            j <= 64,
            count <= j,
        decreases 64 - j,
    {
        proof {
            let v = bb;
            let jj = j;
            assert(((v >> jj) & 1u64) <= 1u64) by (bit_vector)
                requires
                    jj < 64u64,
            ;
        }
        count = count + ((bb >> j) & 1);
        j = j + 1;
    }
    count
}

/// Every blocker pattern within a mask: all subsets of its set bits.
fn bit_permutations(bb: u64) -> (r: Vec<u64>)
{
    let mut digits: Vec<u64> = Vec::new();
    let mut b = bb;
    while b != 0
        invariant
            forall|q: int| 0 <= q < digits@.len() ==> #[trigger] digits@[q] < 64,
        decreases b,
    {
        proof {
            lemma_bit_step(b);
        }
        digits.push(log2(b & (!b + 1)));
        b = b & (b - 1);
    }
    let mut permutations: Vec<u64> = Vec::new();
    if digits.len() > 15 {
        // More relevance bits than any magic table covers: unreachable for
        // rook or bishop masks, which stay within twelve bits.
        return permutations;
    }
    let count: usize = 1usize << digits.len();
    let mut perm_number: usize = 0;
    while perm_number < count
        invariant
            digits@.len() <= 15,
            forall|q: int| 0 <= q < digits@.len() ==> #[trigger] digits@[q] < 64,
        decreases count - perm_number,
    {
        let mut value: u64 = 0;
        let mut i: usize = 0;
        while i < digits.len()
            invariant
                digits@.len() <= 15,
                forall|q: int| 0 <= q < digits@.len() ==> #[trigger] digits@[q] < 64,
            decreases digits@.len() - i,
        {
            if ((perm_number >> i) & 1) == 1 {
                value = value | (1u64 << digits[i]);
            }
            i = i + 1;
        }
        permutations.push(value);
        perm_number = perm_number + 1;
    }
    permutations
}

/// The diagonal rays of a bishop on an empty board, excluding the board's
/// edge and the bishop's own square: the blocker-relevance mask.
fn bishop_unblocked_attack_rays(square: u64) -> u64
    requires
        square < 64,
{
    let rank = square >> 3;
    let file = square & 7;
    proof {
        let s = square;
        assert((s >> 3u64) < 8u64 && (s & 7u64) < 8u64) by (bit_vector)
            requires
                s < 64u64,
        ;
    }
    let mut major: u64;
    let mut minor: u64;
    if file >= rank {
        let shift = file - rank;
        major = MAJOR_DIAG << shift;
        let mut excl_file: u64 = 0;
        while excl_file < shift
            invariant
                shift < 8,
            decreases shift - excl_file,
        {
            major = major & !(FILE_A << excl_file);
            excl_file = excl_file + 1;
        }
    } else {
        let shift = rank - file;
        major = MAJOR_DIAG >> shift;
        let mut excl_file: u64 = 0;
        while excl_file < shift
            invariant
                shift < 8,
            decreases shift - excl_file,
        {
            major = major & !((FILE_A << 7) >> excl_file);
            excl_file = excl_file + 1;
        }
    }
    if file + rank >= 7 {
        let shift = file + rank - 7;
        minor = MINOR_DIAG << shift;
        let mut excl_file: u64 = 0;
        while excl_file < shift
            invariant
                shift < 8,
            decreases shift - excl_file,
        {
            minor = minor & !(FILE_A << excl_file);
            excl_file = excl_file + 1;
        }
    } else {
        let shift = 7 - file - rank;
        minor = MINOR_DIAG >> shift;
        let mut excl_file: u64 = 0;
        while excl_file < shift
            invariant
                shift < 8,
            decreases shift - excl_file,
        {
            minor = minor & !((FILE_A << 7) >> excl_file);
            excl_file = excl_file + 1;
        }
    }
    (major | minor) & !(EDGES | (1u64 << square))
}

/// The orthogonal rays of a rook on an empty board, excluding the edge
/// squares of each ray and the rook's own square: the blocker-relevance
/// mask.
fn rook_unblocked_attack_rays(square: u64) -> u64
    requires
        square < 64,
{
    let rank = square >> 3;
    let file = square & 7;
    proof {
        let s = square;
        assert((s >> 3u64) < 8u64 && (s & 7u64) < 8u64) by (bit_vector)
            requires
                s < 64u64,
        ;
    }
    let mut rays = (FILE_A << file) | (RANK_1 << (8 * rank));
    if file != 0 {
        rays = rays & !FILE_A;
    }
    if file != 7 {
        rays = rays & !(FILE_A << 7);
    }
    if rank != 0 {
        rays = rays & !RANK_1;
    }
    if rank != 7 {
        rays = rays & !(RANK_1 << 56);
    }
    rays & !(1u64 << square)
}

/// The diagonal attacks of a bishop among the given blockers, including the
/// first blocker met on each ray.
fn bishop_blocked_attack_rays(square: u64, blockers: u64) -> u64
    requires
        square < 64,
{
    let rank = square >> 3;
    let file = square & 7;
    proof {
        let s = square;
        assert((s >> 3u64) < 8u64 && (s & 7u64) < 8u64) by (bit_vector)
            requires
                s < 64u64,
        ;
    }
    let mut attack_bb: u64 = 0;

    let mut r = rank;
    let mut f = file;
    let mut blocked = false;
    while r > 0 && f > 0 && !blocked
        invariant
            r < 8,
            f < 8,
        decreases r,
    {
        r = r - 1;
        f = f - 1;
        let bb = 1u64 << (8 * r + f);
        attack_bb = attack_bb | bb;
        if blockers & bb != 0 {
            blocked = true;
        }
    }

    r = rank;
    f = file;
    blocked = false;
    while r > 0 && f < 7 && !blocked
        invariant
            r < 8,
            f < 8,
        decreases r,
    {
        r = r - 1;
        f = f + 1;
        let bb = 1u64 << (8 * r + f);
        attack_bb = attack_bb | bb;
        if blockers & bb != 0 {
            blocked = true;
        }
    }

    r = rank;
    f = file;
    blocked = false;
    while r < 7 && f > 0 && !blocked
        invariant
            r < 8,
            f < 8,
        decreases 7 - r,
    {
        r = r + 1;
        f = f - 1;
        let bb = 1u64 << (8 * r + f);
        attack_bb = attack_bb | bb;
        if blockers & bb != 0 {
            blocked = true;
        }
    }

    r = rank;
    f = file;
    blocked = false;
    while r < 7 && f < 7 && !blocked
        invariant
            r < 8,
            f < 8,
        decreases 7 - r,
    {
        r = r + 1;
        f = f + 1;
        let bb = 1u64 << (8 * r + f);
        attack_bb = attack_bb | bb;
        if blockers & bb != 0 {
            blocked = true;
        }
    }

    attack_bb
}

/// The orthogonal attacks of a rook among the given blockers, including the
/// first blocker met on each ray.
fn rook_blocked_attack_rays(square: u64, blockers: u64) -> u64
    requires
        square < 64,
{
    let rank = square >> 3;
    let file = square & 7;
    proof {
        let s = square;
        assert((s >> 3u64) < 8u64 && (s & 7u64) < 8u64) by (bit_vector)
            requires
                s < 64u64,
        ;
    }
    let mut attack_bb: u64 = 0;

    let mut f = file;
    let mut blocked = false;
    while f > 0 && !blocked
        invariant
            rank < 8,
            f < 8,
        decreases f,
    {
        f = f - 1;
        let bb = 1u64 << (8 * rank + f);
        attack_bb = attack_bb | bb;
        if blockers & bb != 0 {
            blocked = true;
        }
    }

    f = file;
    blocked = false;
    while f < 7 && !blocked
        invariant
            rank < 8,
            f < 8,
        decreases 7 - f,
    {
        f = f + 1;
        let bb = 1u64 << (8 * rank + f);
        attack_bb = attack_bb | bb;
        if blockers & bb != 0 {
            blocked = true;
        }
    }

    let mut r = rank;
    blocked = false;
    while r > 0 && !blocked
        invariant
            r < 8,
            file < 8,
        decreases r,
    {
        r = r - 1;
        let bb = 1u64 << (8 * r + file);
        attack_bb = attack_bb | bb;
        if blockers & bb != 0 {
            blocked = true;
        }
    }

    r = rank;
    blocked = false;
    while r < 7 && !blocked
        invariant
            r < 8,
            file < 8,
        decreases 7 - r,
    {
        r = r + 1;
        let bb = 1u64 << (8 * r + file);
        attack_bb = attack_bb | bb;
        if blockers & bb != 0 {
            blocked = true;
        }
    }

    attack_bb
}

/// Validates one magic factor: hashes every blocker pattern of the mask
/// into a fresh table and fills it with the blocked rays, refusing any
/// collision.  Returns the table and the shift on success.
#[verifier::loop_isolation(false)]
fn test_magic(
    square: u64,
    magic: u64,
    mask: u64,
    rook: bool,
) -> (r: Option<(Vec<u64>, u64)>)
    requires
        square < 64,
    ensures
        match r {
            Some(ts) => 52 <= ts.1 < 64 && ts.0@.len() == 4096,
            None => true,
        },
{
    let cnt = popcount(mask);
    if cnt == 0 || cnt > 12 {
        // Rook and bishop relevance masks always hold one to twelve bits.
        return None;
    }
    let shift = 64 - cnt;
    let mut vision_table: Vec<u64> = Vec::new();
    let mut z: usize = 0;
    while z < 4096
        invariant
            vision_table@.len() == z,
            z <= 4096,
        decreases 4096 - z,
    {
        vision_table.push(0);
        z = z + 1;
    }
    let patterns = bit_permutations(mask);
    let mut pi: usize = 0;
    while pi < patterns.len()
        invariant
            pi <= patterns@.len(),
            vision_table@.len() == 4096,
            52 <= shift < 64,
        decreases patterns@.len() - pi,
    {
        let blocker_pattern = patterns[pi];
        proof {
            lemma_magic_index(blocker_pattern.wrapping_mul(magic), shift);
            assert((1u64 << ((64 - shift) as u64)) <= 4096u64) by (bit_vector)
                requires
                    52 <= shift < 64u64,
            ;
        }
        let index = (blocker_pattern.wrapping_mul(magic) >> shift) as usize;
        if vision_table[index] == 0 {
            let rays = if rook {
                rook_blocked_attack_rays(square, blocker_pattern)
            } else {
                bishop_blocked_attack_rays(square, blocker_pattern)
            };
            vision_table[index] = rays;
        } else {
            return None;
        }
        pi = pi + 1;
    }
    Some((vision_table, shift))
}

/// The engine-facing chess handler: the magic-bitboard attack tables for
/// both sliding-piece kinds, plus the naming services the harness uses for
/// its output.
pub struct ChessHandler {
    bishop_magics: Vec<SMagic>,
    rook_magics: Vec<SMagic>,
}

impl ChessHandler {
    /// The handler's invariant: one validated magic entry per square for
    /// each sliding-piece kind.
    pub closed spec fn wf(&self) -> bool {
        &&& self.bishop_magics@.len() == 64
        &&& self.rook_magics@.len() == 64
        &&& forall|j: int| 0 <= j < 64 ==> #[trigger] smagic_inv(self.bishop_magics@[j])
        &&& forall|j: int| 0 <= j < 64 ==> #[trigger] smagic_inv(self.rook_magics@[j])
    }

    /// Builds the attack tables, validating every magic factor against its
    /// own table: `None` if any factor fails, which the bundled factors
    /// never do.
    #[verifier::loop_isolation(false)]
    pub fn new() -> (r: Option<ChessHandler>)
        ensures
            match r {
                Some(h) => h.wf(),
                None => true,
            },
    {
        let mut bishop_table: Vec<SMagic> = Vec::new();
        let mut rook_table: Vec<SMagic> = Vec::new();
        let mut square: u64 = 0;
        while square < 64
            invariant
                square <= 64,
                bishop_table@.len() == square,
                rook_table@.len() == square,
                forall|j: int| 0 <= j < bishop_table@.len()
                    ==> #[trigger] smagic_inv(bishop_table@[j]),
                forall|j: int| 0 <= j < rook_table@.len()
                    ==> #[trigger] smagic_inv(rook_table@[j]),
            decreases 64 - square,
        {
            let b_mask = bishop_unblocked_attack_rays(square);
            let b_magic = bishop_magic(square);
            match test_magic(square, b_magic, b_mask, false) {
                Some((vision, shift)) => {
                    let mut table: Vec<u64> = Vec::new();
                    proof {
                        assert((1u64 << ((64 - shift) as u64)) <= 4096u64) by (bit_vector)
                            requires
                                52 <= shift < 64u64,
                        ;
                    }
                    let keep64: u64 = 1u64 << (64 - shift);
                    let keep = keep64 as usize;
                    let mut k: usize = 0;
                    while k < keep
                        invariant
                            keep <= 4096,
                            vision@.len() == 4096,
                            table@.len() == k,
                            k <= keep,
                        decreases keep - k,
                    {
                        table.push(vision[k]);
                        k = k + 1;
                    }
                    bishop_table.push(
                        SMagic { attack_table: table, mask: b_mask, magic: b_magic, shift },
                    );
                },
                None => {
                    return None;
                },
            }
            let r_mask = rook_unblocked_attack_rays(square);
            let r_magic = rook_magic(square);
            match test_magic(square, r_magic, r_mask, true) {
                Some((vision, shift)) => {
                    let mut table: Vec<u64> = Vec::new();
                    proof {
                        assert((1u64 << ((64 - shift) as u64)) <= 4096u64) by (bit_vector)
                            requires
                                52 <= shift < 64u64,
                        ;
                    }
                    let keep64: u64 = 1u64 << (64 - shift);
                    let keep = keep64 as usize;
                    let mut k: usize = 0;
                    while k < keep
                        invariant
                            keep <= 4096,
                            vision@.len() == 4096,
                            table@.len() == k,
                            k <= keep,
                        decreases keep - k,
                    {
                        table.push(vision[k]);
                        k = k + 1;
                    }
                    rook_table.push(
                        SMagic { attack_table: table, mask: r_mask, magic: r_magic, shift },
                    );
                },
                None => {
                    return None;
                },
            }
            square = square + 1;
        }
        Some(ChessHandler { bishop_magics: bishop_table, rook_magics: rook_table })
    }

    /// Whether the given square is attacked by the opponent in `pos`.
    pub fn square_is_attacked(&self, square: u64, pos: ChessPos) -> bool
        requires
            self.wf(),
            square < 64,
    {
        let blockers = pos.own | pos.other;
        proof {
            let s = pos.squares;
            assert((s & 0x3fu64) < 64u64 && ((s >> 6u64) & 0x3fu64) < 64u64) by (bit_vector);
        }

        if (king_attacks(pos.squares & 0x3f) & (1u64 << ((pos.squares >> 6) & 0x3f))) != 0 {
            return true;
        }

        proof {
            assert(smagic_inv(self.rook_magics@[square as int]));
        }
        let m_rook = &self.rook_magics[square as usize];
        proof {
            lemma_magic_index((blockers & m_rook.mask).wrapping_mul(m_rook.magic), m_rook.shift);
        }
        let rook_seen = m_rook.attack_table[(((blockers & m_rook.mask).wrapping_mul(m_rook.magic))
            >> m_rook.shift) as usize];
        if (pos.other & pos.ortho & rook_seen) != 0 {
            return true;
        }

        proof {
            assert(smagic_inv(self.bishop_magics@[square as int]));
        }
        let m_bishop = &self.bishop_magics[square as usize];
        proof {
            lemma_magic_index(
                (blockers & m_bishop.mask).wrapping_mul(m_bishop.magic),
                m_bishop.shift,
            );
        }
        let bishop_seen = m_bishop.attack_table[(((blockers & m_bishop.mask).wrapping_mul(
            m_bishop.magic,
        )) >> m_bishop.shift) as usize];
        if (pos.other & pos.diag & bishop_seen) != 0 {
            return true;
        }

        let opp_knights = pos.other & !(pos.ortho | pos.diag | pos.pawn | (1u64 << ((pos.squares
            >> 6) & 0x3f)));
        if (knight_attacks(square) & opp_knights) != 0 {
            return true;
        }

        if (pawn_attacks(square) & pos.other & pos.pawn) != 0 {
            return true;
        }

        false
    }

    /// Generates the legal moves of `pos`: castling, king steps, pawn
    /// pushes, captures, promotions and en-passant, knight jumps, and the
    /// sliding pieces through the magic attack tables, keeping only the
    /// moves that do not leave the mover's king attacked.
    #[verifier::loop_isolation(false)]
    pub fn get_legal_moves(&self, pos: ChessPos) -> (r: Vec<u64>)
        requires
            self.wf(),
            pos.half_move < 0xffff_ffff_ffff_ffff,
            pos.full_move < 0xffff_ffff_ffff_ffff,
        ensures
            forall|j: int| 0 <= j < r@.len() ==> #[trigger] r@[j] < 0x10000,
    {
        proof {
            let s = pos.squares;
            assert((s & 0x3fu64) < 64u64 && ((s >> 6u64) & 0x3fu64) < 64u64
                && ((s >> 12u64) & 0x7fu64) <= 127u64) by (bit_vector);
        }
        let pawn = pos.own & pos.pawn;
        let knight = pos.own & !(pos.ortho | pos.diag | pos.pawn | (1u64 << (pos.squares & 0x3f)));
        let bishop = pos.own & pos.diag & !pos.ortho;
        let rook = pos.own & pos.ortho & !pos.diag;
        let queen = pos.own & pos.diag & pos.ortho;

        let blockers = pos.own | pos.other;
        let mut moves: Vec<u64> = Vec::new();

        if ((pos.squares >> 20) & 1) == 1 && (blockers & KINGSIDE_CASTLE_CLEARANCE_MASK) == 0 {
            let mut bb = KINGSIDE_CASTLE_CHECK_MASK;
            let mut can_cross = true;
            while bb != 0 && can_cross
                invariant
                    forall|j: int| 0 <= j < moves@.len() ==> #[trigger] moves@[j] < 0x10000,
                decreases bb,
            {
                proof {
                    lemma_bit_step(bb);
                }
                can_cross = !self.square_is_attacked(log2(bb & (!bb + 1)), pos);
                bb = bb & (bb - 1);
            }
            if can_cross {
                moves.push(make_move(4, 6, FLAG_CASTLE, 0));
            }
        }
        if ((pos.squares >> 22) & 1) == 1 && (blockers & QUEENSIDE_CASTLE_CLEARANCE_MASK) == 0 {
            let mut bb = QUEENSIDE_CASTLE_CHECK_MASK;
            let mut can_cross = true;
            while bb != 0 && can_cross
                invariant
                    forall|j: int| 0 <= j < moves@.len() ==> #[trigger] moves@[j] < 0x10000,
                decreases bb,
            {
                proof {
                    lemma_bit_step(bb);
                }
                can_cross = !self.square_is_attacked(log2(bb & (!bb + 1)), pos);
                bb = bb & (bb - 1);
            }
            if can_cross {
                moves.push(make_move(4, 2, FLAG_CASTLE, 0));
            }
        }

        let mut bb = king_attacks(pos.squares & 0x3f) & !king_attacks((pos.squares >> 6) & 0x3f)
            & !pos.own;
        while bb != 0
            invariant
                forall|j: int| 0 <= j < moves@.len() ==> #[trigger] moves@[j] < 0x10000,
            decreases bb,
        {
            proof {
                lemma_bit_step(bb);
            }
            moves.push(make_move(pos.squares & 0x3f, log2(bb & (!bb + 1)), FLAG_NONE, 0));
            bb = bb & (bb - 1);
        }

        let mut square: u64 = 0;
        while square < 64
            invariant
                forall|j: int| 0 <= j < moves@.len() ==> #[trigger] moves@[j] < 0x10000,
            decreases 64 - square,
        {
            let rank = square / 8;
            if ((pawn >> square) & 1) == 1 {
                if rank == 6 {
                    // One step from promotion.
                    let mut caps = pawn_attacks(square) & pos.other;
                    while caps != 0
                        invariant
                            forall|j: int| 0 <= j < moves@.len() ==> #[trigger] moves@[j] < 0x10000,
                        decreases caps,
                    {
                        proof {
                            lemma_bit_step(caps);
                        }
                        let dest = log2(caps & (!caps + 1));
                        let mut prmt: u64 = 0;
                        while prmt < 4
                            invariant
                                forall|j: int| 0 <= j < moves@.len() ==> #[trigger] moves@[j] < 0x10000,
                            decreases 4 - prmt,
                        {
                            moves.push(make_move(square, dest, FLAG_PROMOTE, prmt));
                            prmt = prmt + 1;
                        }
                        caps = caps & (caps - 1);
                    }
                    if ((blockers >> (square + 8)) & 1) == 0 {
                        let mut prmt: u64 = 0;
                        while prmt < 4
                            invariant
                                forall|j: int| 0 <= j < moves@.len() ==> #[trigger] moves@[j] < 0x10000,
                            decreases 4 - prmt,
                        {
                            moves.push(make_move(square, square + 8, FLAG_PROMOTE, prmt));
                            prmt = prmt + 1;
                        }
                    }
                } else if rank == 7 {
                    // A pawn on the last rank arises only from a corrupted
                    // position; it has no move.
                } else {
                    if ((blockers >> (square + 8)) & 1) == 0 {
                        moves.push(make_move(square, square + 8, FLAG_NONE, 0));
                        if rank == 1 && ((blockers >> (square + 16)) & 1) == 0 {
                            moves.push(make_move(square, square + 16, FLAG_NONE, 0));
                        }
                    }
                    let mut caps = pawn_attacks(square) & pos.other;
                    while caps != 0
                        invariant
                            forall|j: int| 0 <= j < moves@.len() ==> #[trigger] moves@[j] < 0x10000,
                        decreases caps,
                    {
                        proof {
                            lemma_bit_step(caps);
                        }
                        moves.push(make_move(square, log2(caps & (!caps + 1)), FLAG_NONE, 0));
                        caps = caps & (caps - 1);
                    }
                    let ep_square = (pos.squares >> 12) & 0x7f;
                    if ep_square < 64 {
                        if (pawn_attacks(square) & (1u64 << ep_square)) != 0 {
                            moves.push(make_move(square, ep_square, FLAG_ENPASSANT, 0));
                        }
                    }
                }
            } else if ((knight >> square) & 1) == 1 {
                let mut bb2 = knight_attacks(square) & !pos.own;
                while bb2 != 0
                    invariant
                        forall|j: int| 0 <= j < moves@.len() ==> #[trigger] moves@[j] < 0x10000,
                    decreases bb2,
                {
                    proof {
                        lemma_bit_step(bb2);
                    }
                    moves.push(make_move(square, log2(bb2 & (!bb2 + 1)), FLAG_NONE, 0));
                    bb2 = bb2 & (bb2 - 1);
                }
            } else if ((bishop >> square) & 1) == 1 {
                proof {
                    assert(smagic_inv(self.bishop_magics@[square as int]));
                }
                let m_bishop = &self.bishop_magics[square as usize];
                proof {
                    lemma_magic_index(
                        (blockers & m_bishop.mask).wrapping_mul(m_bishop.magic),
                        m_bishop.shift,
                    );
                }
                let mut bb2 = !pos.own & m_bishop.attack_table[(((blockers
                    & m_bishop.mask).wrapping_mul(m_bishop.magic)) >> m_bishop.shift) as usize];
                while bb2 != 0
                    invariant
                        forall|j: int| 0 <= j < moves@.len() ==> #[trigger] moves@[j] < 0x10000,
                    decreases bb2,
                {
                    proof {
                        lemma_bit_step(bb2);
                    }
                    moves.push(make_move(square, log2(bb2 & (!bb2 + 1)), FLAG_NONE, 0));
                    bb2 = bb2 & (bb2 - 1);
                }
            } else if ((rook >> square) & 1) == 1 {
                proof {
                    assert(smagic_inv(self.rook_magics@[square as int]));
                }
                let m_rook = &self.rook_magics[square as usize];
                proof {
                    lemma_magic_index(
                        (blockers & m_rook.mask).wrapping_mul(m_rook.magic),
                        m_rook.shift,
                    );
                }
                let mut bb2 = !pos.own & m_rook.attack_table[(((blockers
                    & m_rook.mask).wrapping_mul(m_rook.magic)) >> m_rook.shift) as usize];
                while bb2 != 0
                    invariant
                        forall|j: int| 0 <= j < moves@.len() ==> #[trigger] moves@[j] < 0x10000,
                    decreases bb2,
                {
                    proof {
                        lemma_bit_step(bb2);
                    }
                    moves.push(make_move(square, log2(bb2 & (!bb2 + 1)), FLAG_NONE, 0));
                    bb2 = bb2 & (bb2 - 1);
                }
            } else if ((queen >> square) & 1) == 1 {
                proof {
                    assert(smagic_inv(self.bishop_magics@[square as int]));
                    assert(smagic_inv(self.rook_magics@[square as int]));
                }
                let m_bishop = &self.bishop_magics[square as usize];
                let m_rook = &self.rook_magics[square as usize];
                proof {
                    lemma_magic_index(
                        (blockers & m_bishop.mask).wrapping_mul(m_bishop.magic),
                        m_bishop.shift,
                    );
                    lemma_magic_index(
                        (blockers & m_rook.mask).wrapping_mul(m_rook.magic),
                        m_rook.shift,
                    );
                }
                let mut bb2 = !pos.own & (m_bishop.attack_table[(((blockers
                    & m_bishop.mask).wrapping_mul(m_bishop.magic)) >> m_bishop.shift) as usize]
                    | m_rook.attack_table[(((blockers & m_rook.mask).wrapping_mul(m_rook.magic))
                        >> m_rook.shift) as usize]);
                while bb2 != 0
                    invariant
                        forall|j: int| 0 <= j < moves@.len() ==> #[trigger] moves@[j] < 0x10000,
                    decreases bb2,
                {
                    proof {
                        lemma_bit_step(bb2);
                    }
                    moves.push(make_move(square, log2(bb2 & (!bb2 + 1)), FLAG_NONE, 0));
                    bb2 = bb2 & (bb2 - 1);
                }
            }
            square = square + 1;
        }

        // Keep only the moves that leave the mover's own king safe.
        let mut legal: Vec<u64> = Vec::new();
        let mut i: usize = 0;
        while i < moves.len()
            invariant
                forall|j: int| 0 <= j < moves@.len() ==> #[trigger] moves@[j] < 0x10000,
                forall|j: int| 0 <= j < legal@.len() ==> #[trigger] legal@[j] < 0x10000,
            decreases moves@.len() - i,
        {
            let mv = moves[i];
            let new_pos = pos.play_move(mv).flip_position();
            proof {
                let s = new_pos.squares;
                assert((s & 0x3fu64) < 64u64) by (bit_vector);
            }
            if !self.square_is_attacked(new_pos.squares & 0x3f, new_pos) {
                legal.push(mv);
            }
            i = i + 1;
        }
        legal
    }

    /// The algebraic name of a square index.
    pub fn square_to_string(&self, sq: u64) -> (r: String)
        requires
            sq < 64,
        ensures
            r@ == square_chars(sq),
    {
        ChessPos::square_to_string(sq)
    }

    /// The long algebraic name of an encoded move, from the point of view of
    /// the side `side` (1 flips the squares back to White's frame): for a
    /// plain move, the origin square followed by the destination square.
    pub fn move_string(&self, mv: u64, side: u64) -> (r: String)
        ensures
            (mv >> 12) & 0x3 == 0 ==> r@ == square_chars(
                if side == 1 {
                    flip_square_spec(mv & 0x3f)
                } else {
                    mv & 0x3f
                },
            ) + square_chars(
                if side == 1 {
                    flip_square_spec((mv >> 6) & 0x3f)
                } else {
                    (mv >> 6) & 0x3f
                },
            ),
    {
        proof {
            let m = mv;
            assert((m & 0x3fu64) < 64u64 && ((m >> 6u64) & 0x3fu64) < 64u64) by (bit_vector);
        }
        let o = if side == 1 {
            flip_square(mv & 0x3f)
        } else {
            mv & 0x3f
        };
        let d = if side == 1 {
            flip_square((mv >> 6) & 0x3f)
        } else {
            (mv >> 6) & 0x3f
        };
        let f = (mv >> 12) & 0x3;
        let p = (mv >> 14) & 0x3;

        let mut out = String::new();
        if f == 0 {
            push_square(&mut out, o);
            push_square(&mut out, d);
            proof {
                assert(out@ =~= square_chars(o) + square_chars(d));
            }
        } else if f == 1 {
            push_square(&mut out, o);
            push_square(&mut out, d);
            out.append(
                if p == 0 {
                    "q"
                } else if p == 1 {
                    "r"
                } else if p == 2 {
                    "b"
                } else {
                    "n"
                },
            );
        } else if f == 2 {
            out.append(
                if d == 2 {
                    "e1c1"
                } else {
                    "e1g1"
                },
            );
        } else {
            push_square(&mut out, o);
            push_square(&mut out, d);
            out.append("ep");
        }
        out
    }
}

} // verus!
