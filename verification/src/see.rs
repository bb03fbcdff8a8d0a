//! Static exchange evaluation: the material outcome of the capture
//! sequence on one square, each side always recapturing with its least
//! valuable attacker, either side free to stop. The specification mirrors
//! that game exactly: `see_spec` is the victim's value less the best
//! clamped reply, and the executable search computes it.

use vstd::prelude::*;

use crate::board::bishop_moves;
use crate::board::bishop_rays_of;
use crate::board::board_colors;
use crate::board::board_occupied;
use crate::board::board_piece_on;
use crate::board::board_pieces;
use crate::board::board_stm;
use crate::board::colors_of;
use crate::board::king_moves;
use crate::board::king_rays_of;
use crate::board::knight_moves;
use crate::board::knight_rays_of;
use crate::board::occupied_of;
use crate::board::pawn_attacks;
use crate::board::pawn_attacks_of;
use crate::board::piece_on_of;
use crate::board::pieces_of;
use crate::board::rook_moves;
use crate::board::rook_rays_of;
use crate::board::stm_of;
use crate::moves::MoveData;

verus! {

/// Greatest magnitude a static exchange score can take.
pub const SEE_LIMIT: i32 = 30_000;

/// The material value of a piece kind in the exchange game.
pub open spec fn piece_value_spec(piece: int) -> int {
    if piece == 0 {
        100
    } else if piece == 1 || piece == 2 {
        325
    } else if piece == 3 {
        500
    } else if piece == 4 {
        900
    } else {
        10_000
    }
}

/// The material value of a piece kind.
pub fn piece_value(piece: u8) -> (r: i32)
    ensures
        r == piece_value_spec(piece as int),
        0 <= r <= 10_000,
{
    if piece == 0 {
        100
    } else if piece == 1 {
        325
    } else if piece == 2 {
        325
    } else if piece == 3 {
        500
    } else if piece == 4 {
        900
    } else {
        10_000
    }
}

/// The lowest set square of a mask at or above `i`, if any.
pub open spec fn first_sq_spec(mask: u64, i: int) -> Option<int>
    decreases 64 - i,
{
    if i < 0 || i >= 64 {
        None
    } else if (mask >> (i as u64)) & 1 == 1 {
        Some(i)
    } else {
        first_sq_spec(mask, i + 1)
    }
}

/// The lowest set square of a mask, if any.
fn first_square(mask: u64) -> (r: Option<u8>)
    ensures
        match first_sq_spec(mask, 0) {
            Some(si) => r matches Some(s) && s == si && s < 64,
            None => r is None,
        },
{
    let mut i: u8 = 0;
    while i < 64
        invariant
            i <= 64,
            first_sq_spec(mask, 0) == first_sq_spec(mask, i as int),
        decreases 64 - i,
    {
        if (mask >> (i as u64)) & 1 == 1 {
            return Some(i);
        }
        i += 1;
    }
    None
}

/// The least valuable piece of `side` attacking `sq` among the occupied
/// squares of `occ`: its square and kind, pawns first, the king last.
pub open spec fn least_attacker_spec(b: cozy_chess::Board, sq: u8, side: u8, occ: u64) -> Option<
    (int, int),
> {
    let own = colors_of(b, side) & occ;
    let pawns = pawn_attacks_of(sq, (1 - side) as u8) & pieces_of(b, 0) & own;
    let knights = knight_rays_of(sq) & pieces_of(b, 1) & own;
    let diag = bishop_rays_of(sq, occ);
    let bishops = diag & pieces_of(b, 2) & own;
    let line = rook_rays_of(sq, occ);
    let rooks = line & pieces_of(b, 3) & own;
    let queens = (diag | line) & pieces_of(b, 4) & own;
    let kings = king_rays_of(sq) & pieces_of(b, 5) & own;
    match first_sq_spec(pawns, 0) {
        Some(s) => Some((s, 0)),
        None => match first_sq_spec(knights, 0) {
            Some(s) => Some((s, 1)),
            None => match first_sq_spec(bishops, 0) {
                Some(s) => Some((s, 2)),
                None => match first_sq_spec(rooks, 0) {
                    Some(s) => Some((s, 3)),
                    None => match first_sq_spec(queens, 0) {
                        Some(s) => Some((s, 4)),
                        None => match first_sq_spec(kings, 0) {
                            Some(s) => Some((s, 5)),
                            None => None,
                        },
                    },
                },
            },
        },
    }
}

/// What `side` gains by continuing the capture sequence on `sq`, where a
/// piece worth `piece_val` stands: its least attacker may take it, the
/// other side replies in turn, and standing pat is always allowed (the
/// gain never goes below zero).
pub open spec fn see_gain(
    b: cozy_chess::Board,
    sq: u8,
    occ: u64,
    side: u8,
    piece_val: int,
    d: int,
) -> int
    decreases d,
{
    if d <= 0 {
        0
    } else {
        match least_attacker_spec(b, sq, side, occ) {
            None => 0,
            Some((s, p)) => {
                let reply = see_gain(
                    b,
                    sq,
                    occ & !(1u64 << (s as u64)),
                    (1 - side) as u8,
                    piece_value_spec(p),
                    d - 1,
                );
                let net = piece_val - reply;
                if net > 0 {
                    net
                } else {
                    0
                }
            },
        }
    }
}

/// The static exchange score of a move: the value of whatever stands on
/// the destination, less the opponent's best continuation of the capture
/// sequence there once the moving piece has landed.
pub open spec fn see_spec(b: cozy_chess::Board, m: MoveData) -> int {
    let stm = stm_of(b);
    let victim = match piece_on_of(b, m.to) {
        Some(p) => piece_value_spec(p as int),
        None => 0,
    };
    let attacker = match piece_on_of(b, m.from) {
        Some(p) => p as int,
        None => 0,
    };
    let occ = occupied_of(b) & !(1u64 << (m.from as u64));
    victim - see_gain(b, m.to, occ, (1 - stm) as u8, piece_value_spec(attacker), 23)
}

fn least_attacker(board: &cozy_chess::Board, sq: u8, side: u8, occ: u64) -> (r: Option<(u8, u8)>)
    requires
        sq < 64,
        side < 2,
    ensures
        match least_attacker_spec(*board, sq, side, occ) {
            Some((si, pi)) => r matches Some((s, p)) && s == si && p == pi && s < 64 && p < 6,
            None => r is None,
        },
{
    let own = board_colors(board, side) & occ;
    let pawns = pawn_attacks(sq, 1 - side) & board_pieces(board, 0) & own;
    match first_square(pawns) {
        Some(s) => {
            return Some((s, 0));
        },
        None => {},
    }
    let knights = knight_moves(sq) & board_pieces(board, 1) & own;
    match first_square(knights) {
        Some(s) => {
            return Some((s, 1));
        },
        None => {},
    }
    let diag = bishop_moves(sq, occ);
    let bishops = diag & board_pieces(board, 2) & own;
    match first_square(bishops) {
        Some(s) => {
            return Some((s, 2));
        },
        None => {},
    }
    let line = rook_moves(sq, occ);
    let rooks = line & board_pieces(board, 3) & own;
    match first_square(rooks) {
        Some(s) => {
            return Some((s, 3));
        },
        None => {},
    }
    let queens = (diag | line) & board_pieces(board, 4) & own;
    match first_square(queens) {
        Some(s) => {
            return Some((s, 4));
        },
        None => {},
    }
    let kings = king_moves(sq) & board_pieces(board, 5) & own;
    match first_square(kings) {
        Some(s) => {
            return Some((s, 5));
        },
        None => {},
    }
    None
}

fn see_gain_exec(board: &cozy_chess::Board, sq: u8, occ: u64, side: u8, piece_val: i32, d: u32) -> (r: i32)
    requires
        sq < 64,
        side < 2,
        0 <= piece_val <= 10_000,
        d <= 23,
    ensures
        r == see_gain(*board, sq, occ, side, piece_val as int, d as int),
        0 <= r <= piece_val,
    decreases d,
{
    if d == 0 {
        return 0;
    }
    match least_attacker(board, sq, side, occ) {
        None => 0,
        Some((s, p)) => {
            let reply = see_gain_exec(
                board,
                sq,
                occ & !(1u64 << (s as u64)),
                1 - side,
                piece_value(p),
                d - 1,
            );
            let net = piece_val - reply;
            if net > 0 {
                net
            } else {
                0
            }
        },
    }
}

/// The static exchange score of a capture: positive when the capture
/// sequence on the destination square wins material for the side to
/// move.
pub fn see(board: &cozy_chess::Board, mv: MoveData) -> (r: i32)
    requires
        mv.wf(),
    ensures
        r == see_spec(*board, mv),
        -SEE_LIMIT <= r <= SEE_LIMIT,
{
    let stm = board_stm(board);
    let victim = match board_piece_on(board, mv.to) {
        Some(p) => piece_value(p),
        None => 0,
    };
    let attacker_piece: u8 = match board_piece_on(board, mv.from) {
        Some(p) => p,
        None => 0,
    };
    let occ: u64 = board_occupied(board) & !(1u64 << (mv.from as u64));
    let gain = see_gain_exec(board, mv.to, occ, 1 - stm, piece_value(attacker_piece), 23);
    victim - gain
}

} // verus!
