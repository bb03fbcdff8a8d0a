//! The boundary to the board library. Move generation, legality, hashing
//! and piece placement are the board library's work; everything the engine
//! reads of a board comes through the wrappers here, whose results are
//! named by the specification functions below. Squares are rank-major
//! indices `0..64`, piece kinds `0..6` (pawn through king) and colors `0`
//! (white) or `1` (black), as the board library defines them.

use vstd::prelude::*;

use crate::moves::MoveData;

verus! {

#[verifier::external_type_specification]
#[verifier::external_body]
pub struct ExBoard(cozy_chess::Board);

/// The Zobrist hash of a position.
pub uninterp spec fn hash_of(b: cozy_chess::Board) -> u64;

/// The side to move: 0 white, 1 black.
pub uninterp spec fn stm_of(b: cozy_chess::Board) -> u8;

/// The piece kind on a square, if any.
pub uninterp spec fn piece_on_of(b: cozy_chess::Board, sq: u8) -> Option<u8>;

/// The color of the piece on a square, if any.
pub uninterp spec fn color_on_of(b: cozy_chess::Board, sq: u8) -> Option<u8>;

/// Bitboard of the pieces giving check.
pub uninterp spec fn checkers_of(b: cozy_chess::Board) -> u64;

/// Plies since the last capture or pawn move, capped at 100.
pub uninterp spec fn halfmove_of(b: cozy_chess::Board) -> u8;

/// Bitboard of all occupied squares.
pub uninterp spec fn occupied_of(b: cozy_chess::Board) -> u64;

/// Bitboard of all pieces of one kind, both colors.
pub uninterp spec fn pieces_of(b: cozy_chess::Board, piece: u8) -> u64;

/// Bitboard of all pieces of one color.
pub uninterp spec fn colors_of(b: cozy_chess::Board, color: u8) -> u64;

/// The en-passant file, if a double pawn push just happened.
pub uninterp spec fn ep_of(b: cozy_chess::Board) -> Option<u8>;

/// Whether a move is legal in a position.
pub uninterp spec fn legal_of(b: cozy_chess::Board, m: MoveData) -> bool;

/// The position after a legal move is played.
pub uninterp spec fn after_of(b: cozy_chess::Board, m: MoveData) -> cozy_chess::Board;

/// The position after the side to move passes.
pub uninterp spec fn after_null_of(b: cozy_chess::Board) -> cozy_chess::Board;

/// Rook attacks from a square given blockers.
pub uninterp spec fn rook_rays_of(sq: u8, blockers: u64) -> u64;

/// Bishop attacks from a square given blockers.
pub uninterp spec fn bishop_rays_of(sq: u8, blockers: u64) -> u64;

/// Knight attacks from a square.
pub uninterp spec fn knight_rays_of(sq: u8) -> u64;

/// King attacks from a square.
pub uninterp spec fn king_rays_of(sq: u8) -> u64;

/// The squares a pawn of `color` standing on `sq` attacks; equally, the
/// squares from which a pawn of the other color would attack `sq`.
pub uninterp spec fn pawn_attacks_of(sq: u8, color: u8) -> u64;

/// Relies on `cozy_chess::Board::hash`: the 64-bit Zobrist hash, a
/// function of the position alone.
#[verifier::external_body]
pub fn board_hash(b: &cozy_chess::Board) -> (r: u64)
    ensures
        r == hash_of(*b),
{
    b.hash()
}

/// Relies on `cozy_chess::Board::side_to_move`.
#[verifier::external_body]
pub fn board_stm(b: &cozy_chess::Board) -> (r: u8)
    ensures
        r == stm_of(*b),
        r < 2,
{
    b.side_to_move() as u8
}

/// Relies on `cozy_chess::Board::piece_on`; piece kinds index `Piece::ALL`.
#[verifier::external_body]
pub fn board_piece_on(b: &cozy_chess::Board, sq: u8) -> (r: Option<u8>)
    requires
        sq < 64,
    ensures
        r == piece_on_of(*b, sq),
        r matches Some(p) ==> p < 6,
{
    b.piece_on(cozy_chess::Square::index(sq as usize)).map(|p| p as u8)
}

/// Relies on `cozy_chess::Board::color_on`.
#[verifier::external_body]
pub fn board_color_on(b: &cozy_chess::Board, sq: u8) -> (r: Option<u8>)
    requires
        sq < 64,
    ensures
        r == color_on_of(*b, sq),
        r matches Some(c) ==> c < 2,
        r is Some <==> piece_on_of(*b, sq) is Some,
{
    b.color_on(cozy_chess::Square::index(sq as usize)).map(|c| c as u8)
}

/// Relies on `cozy_chess::Board::checkers`.
#[verifier::external_body]
pub fn board_checkers(b: &cozy_chess::Board) -> (r: u64)
    ensures
        r == checkers_of(*b),
{
    b.checkers().0
}

/// Relies on `cozy_chess::Board::halfmove_clock`, which the library caps
/// at 100.
#[verifier::external_body]
pub fn board_halfmove(b: &cozy_chess::Board) -> (r: u8)
    ensures
        r == halfmove_of(*b),
        r <= 100,
{
    b.halfmove_clock()
}

/// Relies on `cozy_chess::Board::occupied`.
#[verifier::external_body]
pub fn board_occupied(b: &cozy_chess::Board) -> (r: u64)
    ensures
        r == occupied_of(*b),
{
    b.occupied().0
}

/// Relies on `cozy_chess::Board::pieces`.
#[verifier::external_body]
pub fn board_pieces(b: &cozy_chess::Board, piece: u8) -> (r: u64)
    requires
        piece < 6,
    ensures
        r == pieces_of(*b, piece),
{
    b.pieces(cozy_chess::Piece::index(piece as usize)).0
}

/// Relies on `cozy_chess::Board::colors`.
#[verifier::external_body]
pub fn board_colors(b: &cozy_chess::Board, color: u8) -> (r: u64)
    requires
        color < 2,
    ensures
        r == colors_of(*b, color),
{
    b.colors(cozy_chess::Color::index(color as usize)).0
}

/// Relies on `cozy_chess::Board::en_passant`: the file of a pawn that
/// just moved two squares, if any. Such a pawn of the waiting side stands
/// on the capturable square of that file.
#[verifier::external_body]
pub fn board_ep_file(b: &cozy_chess::Board) -> (r: Option<u8>)
    ensures
        r == ep_of(*b),
        r matches Some(f) ==> f < 8 && piece_on_of(*b, (f + if stm_of(*b) == 0 {
            32u8
        } else {
            24u8
        }) as u8) == Some(0u8) && color_on_of(*b, (f + if stm_of(*b) == 0 {
            32u8
        } else {
            24u8
        }) as u8) == Some((1 - stm_of(*b)) as u8),
{
    b.en_passant().map(|f| f as u8)
}

/// Relies on `cozy_chess::Board::is_legal`, a function of the position
/// and the move's fields alone.
#[verifier::external_body]
pub fn board_is_legal(b: &cozy_chess::Board, m: MoveData) -> (r: bool)
    requires
        m.wf(),
    ensures
        r == legal_of(*b, m),
        r ==> piece_on_of(*b, m.from) is Some && color_on_of(*b, m.from) == Some(stm_of(*b)),
{
    b.is_legal(cozy_chess::Move {
        from: cozy_chess::Square::index(m.from as usize),
        to: cozy_chess::Square::index(m.to as usize),
        promotion: if m.promotion < 6 {
            Some(cozy_chess::Piece::index(m.promotion as usize))
        } else {
            None
        },
    })
}

/// Relies on `cozy_chess::Board::generate_moves`, which yields exactly
/// the legal moves of the position, each once.
#[verifier::external_body]
pub fn board_legal_moves(b: &cozy_chess::Board) -> (r: Vec<MoveData>)
    ensures
        forall|i: int| 0 <= i < r@.len() ==> (#[trigger] r@[i]).wf() && legal_of(*b, r@[i]),
        forall|i: int|
            0 <= i < r@.len() ==> piece_on_of(*b, (#[trigger] r@[i]).from) is Some && color_on_of(
                *b,
                r@[i].from,
            ) == Some(stm_of(*b)),
        forall|m: MoveData| m.wf() && legal_of(*b, m) ==> r@.contains(m),
        r@.no_duplicates(),
        r@.len() <= 256,
{
    let mut out: Vec<MoveData> = Vec::new();
    b.generate_moves(|mvs| {
        for mv in mvs {
            out.push(MoveData {
                from: mv.from as u8,
                to: mv.to as u8,
                promotion: mv.promotion.map_or(6, |p| p as u8),
            });
        }
        false
    });
    out
}

/// Relies on `cozy_chess::Board::play_unchecked`, which expects a legal
/// move; the successor position is a function of the position and move,
/// and its piece placement follows the standard move rules
/// (`grid_after`): the moved piece leaves its square, a capture or an
/// en-passant victim disappears, castling reseats the king and rook, and
/// a promotion places the chosen piece.
#[verifier::external_body]
pub fn board_play(b: &mut cozy_chess::Board, m: MoveData)
    requires
        m.wf(),
        legal_of(*old(b), m),
        piece_on_of(*old(b), m.from) is Some,
    ensures
        *final(b) == after_of(*old(b), m),
        crate::nnue::grid_of(*final(b)) == crate::nnue::grid_after(*old(b), m),
        stm_of(*final(b)) == 1 - stm_of(*old(b)),
{
    b.play_unchecked(cozy_chess::Move {
        from: cozy_chess::Square::index(m.from as usize),
        to: cozy_chess::Square::index(m.to as usize),
        promotion: if m.promotion < 6 {
            Some(cozy_chess::Piece::index(m.promotion as usize))
        } else {
            None
        },
    });
}

/// Relies on `cozy_chess::Board::null_move`: `Some` exactly when the side
/// to move is not in check.
#[verifier::external_body]
pub fn board_null_move(b: &cozy_chess::Board) -> (r: Option<cozy_chess::Board>)
    ensures
        r matches Some(nb) ==> nb == after_null_of(*b) && crate::nnue::grid_of(nb)
            == crate::nnue::grid_of(*b) && stm_of(nb) == 1 - stm_of(*b),
        r is Some <==> checkers_of(*b) == 0,
{
    b.null_move()
}

/// Relies on `cozy_chess::Board::clone`, which returns an equal position.
#[verifier::external_body]
pub fn board_clone(b: &cozy_chess::Board) -> (r: cozy_chess::Board)
    ensures
        r == *b,
{
    b.clone()
}

/// Relies on `cozy_chess::get_rook_moves`.
#[verifier::external_body]
pub fn rook_moves(sq: u8, blockers: u64) -> (r: u64)
    requires
        sq < 64,
    ensures
        r == rook_rays_of(sq, blockers),
{
    cozy_chess::get_rook_moves(cozy_chess::Square::index(sq as usize), cozy_chess::BitBoard(
        blockers,
    )).0
}

/// Relies on `cozy_chess::get_bishop_moves`.
#[verifier::external_body]
pub fn bishop_moves(sq: u8, blockers: u64) -> (r: u64)
    requires
        sq < 64,
    ensures
        r == bishop_rays_of(sq, blockers),
{
    cozy_chess::get_bishop_moves(cozy_chess::Square::index(sq as usize), cozy_chess::BitBoard(
        blockers,
    )).0
}

/// Relies on `cozy_chess::get_knight_moves`.
#[verifier::external_body]
pub fn knight_moves(sq: u8) -> (r: u64)
    requires
        sq < 64,
    ensures
        r == knight_rays_of(sq),
{
    cozy_chess::get_knight_moves(cozy_chess::Square::index(sq as usize)).0
}

/// Relies on `cozy_chess::get_king_moves`.
#[verifier::external_body]
pub fn king_moves(sq: u8) -> (r: u64)
    requires
        sq < 64,
    ensures
        r == king_rays_of(sq),
{
    cozy_chess::get_king_moves(cozy_chess::Square::index(sq as usize)).0
}

/// Relies on `cozy_chess::get_pawn_attacks`.
#[verifier::external_body]
pub fn pawn_attacks(sq: u8, color: u8) -> (r: u64)
    requires
        sq < 64,
        color < 2,
    ensures
        r == pawn_attacks_of(sq, color),
{
    cozy_chess::get_pawn_attacks(cozy_chess::Square::index(sq as usize), cozy_chess::Color::index(
        color as usize,
    )).0
}

} // verus!
