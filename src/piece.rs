use vstd::prelude::*;

verus! {

/// The seven kinds of piece, from the highest rank to the lowest.
#[derive(Debug, Clone, Copy, PartialEq, Eq, Hash, Structural)]
pub enum PieceType {
    General,
    Advisor,
    Elephant,
    Chariot,
    Horse,
    Cannon,
    Soldier,
}

/// The two sides of the game.
#[derive(Debug, Clone, Copy, PartialEq, Eq, Hash, Structural)]
pub enum Player {
    Red,
    Black,
}

/// A piece is its kind and its side; two pieces with the same kind and side
/// are interchangeable.
#[derive(Debug, Clone, Copy, PartialEq, Eq, Hash, Structural)]
pub struct Piece {
    pub piece_type: PieceType,
    pub player: Player,
}

/// Rank of a kind: General 7 down to Soldier 1.
pub open spec fn rank_of(t: PieceType) -> int {
    match t {
        PieceType::General => 7,
        PieceType::Advisor => 6,
        PieceType::Elephant => 5,
        PieceType::Chariot => 4,
        PieceType::Horse => 3,
        PieceType::Cannon => 2,
        PieceType::Soldier => 1,
    }
}

/// The capture table: a Soldier takes a General, a General never takes a
/// Soldier, and otherwise a piece takes any piece of equal or lower rank.
pub open spec fn capture_allowed(attacker: PieceType, defender: PieceType) -> bool {
    if attacker == PieceType::Soldier && defender == PieceType::General {
        true
    } else if attacker == PieceType::General && defender == PieceType::Soldier {
        false
    } else {
        rank_of(attacker) >= rank_of(defender)
    }
}

/// Rank of a kind, as a number.
pub fn rank(t: PieceType) -> (r: u8)
    ensures
        r as int == rank_of(t),
{
    match t {
        PieceType::General => 7,
        PieceType::Advisor => 6,
        PieceType::Elephant => 5,
        PieceType::Chariot => 4,
        PieceType::Horse => 3,
        PieceType::Cannon => 2,
        PieceType::Soldier => 1,
    }
}

/// Whether `attacker` may take `defender` by rank. Sides are not looked at,
/// and a Cannon's real capture rule is the jump over one piece, which needs
/// the board.
pub fn can_capture(attacker: Piece, defender: Piece) -> (r: bool)
    ensures
        r == capture_allowed(attacker.piece_type, defender.piece_type),
{
    match (attacker.piece_type, defender.piece_type) {
        (PieceType::Soldier, PieceType::General) => true,
        (PieceType::General, PieceType::Soldier) => false,
        _ => rank(attacker.piece_type) >= rank(defender.piece_type),
    }
}

/// A piece of one kind may always take a piece of the same kind.
pub proof fn lemma_same_kind_capture(attacker: Piece, defender: Piece)
    requires
        attacker.piece_type == defender.piece_type,
    ensures
        capture_allowed(attacker.piece_type, defender.piece_type),
{
}

/// Chinese character shown for each piece.
pub open spec fn chinese_symbol(player: Player, t: PieceType) -> Seq<char> {
    match (player, t) {
        (Player::Red, PieceType::General) => "帥"@,
        (Player::Black, PieceType::General) => "將"@,
        (Player::Red, PieceType::Advisor) => "仕"@,
        (Player::Black, PieceType::Advisor) => "士"@,
        (Player::Red, PieceType::Elephant) => "相"@,
        (Player::Black, PieceType::Elephant) => "象"@,
        (Player::Red, PieceType::Chariot) => "俥"@,
        (Player::Black, PieceType::Chariot) => "車"@,
        (Player::Red, PieceType::Horse) => "傌"@,
        (Player::Black, PieceType::Horse) => "馬"@,
        (Player::Red, PieceType::Cannon) => "炮"@,
        (Player::Black, PieceType::Cannon) => "砲"@,
        (Player::Red, PieceType::Soldier) => "兵"@,
        (Player::Black, PieceType::Soldier) => "卒"@,
    }
}

/// Latin two-letter code shown for each piece: side letter, then kind letter.
/// Chariot and Cannon share the letter C.
pub open spec fn latin_symbol(player: Player, t: PieceType) -> Seq<char> {
    match (player, t) {
        (Player::Red, PieceType::General) => "RG"@,
        (Player::Black, PieceType::General) => "BG"@,
        (Player::Red, PieceType::Advisor) => "RA"@,
        (Player::Black, PieceType::Advisor) => "BA"@,
        (Player::Red, PieceType::Elephant) => "RE"@,
        (Player::Black, PieceType::Elephant) => "BE"@,
        (Player::Red, PieceType::Chariot) => "RC"@,
        (Player::Black, PieceType::Chariot) => "BC"@,
        (Player::Red, PieceType::Horse) => "RH"@,
        (Player::Black, PieceType::Horse) => "BH"@,
        (Player::Red, PieceType::Cannon) => "RC"@,
        (Player::Black, PieceType::Cannon) => "BC"@,
        (Player::Red, PieceType::Soldier) => "RS"@,
        (Player::Black, PieceType::Soldier) => "BS"@,
    }
}

/// The symbol table in Chinese characters, looked up by side and kind.
pub fn piece_symbols(player: Player, t: PieceType) -> (r: &'static str)
    ensures
        r@ == chinese_symbol(player, t),
{
    match (player, t) {
        (Player::Red, PieceType::General) => "帥",
        (Player::Black, PieceType::General) => "將",
        (Player::Red, PieceType::Advisor) => "仕",
        (Player::Black, PieceType::Advisor) => "士",
        (Player::Red, PieceType::Elephant) => "相",
        (Player::Black, PieceType::Elephant) => "象",
        (Player::Red, PieceType::Chariot) => "俥",
        (Player::Black, PieceType::Chariot) => "車",
        (Player::Red, PieceType::Horse) => "傌",
        (Player::Black, PieceType::Horse) => "馬",
        (Player::Red, PieceType::Cannon) => "炮",
        (Player::Black, PieceType::Cannon) => "砲",
        (Player::Red, PieceType::Soldier) => "兵",
        (Player::Black, PieceType::Soldier) => "卒",
    }
}

/// The symbol table in Latin letters, looked up by side and kind.
pub fn piece_symbols_eng(player: Player, t: PieceType) -> (r: &'static str)
    ensures
        r@ == latin_symbol(player, t),
{
    match (player, t) {
        (Player::Red, PieceType::General) => "RG",
        (Player::Black, PieceType::General) => "BG",
        (Player::Red, PieceType::Advisor) => "RA",
        (Player::Black, PieceType::Advisor) => "BA",
        (Player::Red, PieceType::Elephant) => "RE",
        (Player::Black, PieceType::Elephant) => "BE",
        (Player::Red, PieceType::Chariot) => "RC",
        (Player::Black, PieceType::Chariot) => "BC",
        (Player::Red, PieceType::Horse) => "RH",
        (Player::Black, PieceType::Horse) => "BH",
        (Player::Red, PieceType::Cannon) => "RC",
        (Player::Black, PieceType::Cannon) => "BC",
        (Player::Red, PieceType::Soldier) => "RS",
        (Player::Black, PieceType::Soldier) => "BS",
    }
}

} // verus!
