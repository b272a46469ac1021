//! The token ledger. `Funds` maps each of the six token colors to a
//! non-negative count and is the monetary algebra shared by the bank and the
//! players: saturating addition, checked subtraction that names the first
//! insufficient token in canonical order, and the collect-and-discard
//! exchange protocol.

use vstd::prelude::*;

use crate::piece::{exists_piece, forall_piece, Piece};

verus! {

/// A count of tokens per color. The counts are bounded by `u8`; additions
/// saturate at 255 and subtractions fail rather than underflow.
#[derive(Clone, Copy, PartialEq, Eq, Structural, Debug)]
pub struct Funds {
    pub red: u8,
    pub green: u8,
    pub blue: u8,
    pub brown: u8,
    pub white: u8,
    pub golden: u8,
}

/// Why a subtraction of funds was refused: some token's required amount
/// exceeds the available amount.
#[derive(Clone, Copy, PartialEq, Eq, Structural, Debug)]
pub enum FundsSubtractionError {
    NotEnoughFunds(Piece),
}

impl Funds {
    /// The count this ledger holds for token `p`.
    pub open spec fn cnt(self, p: Piece) -> u8 {
        match p {
            Piece::Red => self.red,
            Piece::Green => self.green,
            Piece::Blue => self.blue,
            Piece::Brown => self.brown,
            Piece::White => self.white,
            Piece::Golden => self.golden,
        }
    }

    /// This ledger with the count for token `p` replaced by `v`.
    pub open spec fn spec_with_cnt(self, p: Piece, v: u8) -> Funds {
        match p {
            Piece::Red => Funds { red: v, ..self },
            Piece::Green => Funds { green: v, ..self },
            Piece::Blue => Funds { blue: v, ..self },
            Piece::Brown => Funds { brown: v, ..self },
            Piece::White => Funds { white: v, ..self },
            Piece::Golden => Funds { golden: v, ..self },
        }
    }

    /// The total number of tokens held, over all six colors.
    pub open spec fn spec_total(self) -> int {
        self.red + self.green + self.blue + self.brown + self.white + self.golden
    }

    pub fn new(red: u8, green: u8, blue: u8, brown: u8, white: u8, golden: u8) -> (r: Funds)
        ensures
            r == (Funds { red, green, blue, brown, white, golden }),
    {
        Funds { red, green, blue, brown, white, golden }
    }

    pub fn get(&self, p: Piece) -> (r: u8)
        ensures
            r == self.cnt(p),
    {
        match p {
            Piece::Red => self.red,
            Piece::Green => self.green,
            Piece::Blue => self.blue,
            Piece::Brown => self.brown,
            Piece::White => self.white,
            Piece::Golden => self.golden,
        }
    }

    pub fn with_cnt(self, p: Piece, v: u8) -> (r: Funds)
        ensures
            r == self.spec_with_cnt(p, v),
    {
        match p {
            Piece::Red => Funds { red: v, ..self },
            Piece::Green => Funds { green: v, ..self },
            Piece::Blue => Funds { blue: v, ..self },
            Piece::Brown => Funds { brown: v, ..self },
            Piece::White => Funds { white: v, ..self },
            Piece::Golden => Funds { golden: v, ..self },
        }
    }

    /// The per-token sum of two ledgers, each count saturating at 255.
    pub fn add(self, rhs: Funds) -> (r: Funds)
        ensures
            r == spec_add(self, rhs),
    {
        Funds {
            red: self.red.saturating_add(rhs.red),
            green: self.green.saturating_add(rhs.green),
            blue: self.blue.saturating_add(rhs.blue),
            brown: self.brown.saturating_add(rhs.brown),
            white: self.white.saturating_add(rhs.white),
            golden: self.golden.saturating_add(rhs.golden),
        }
    }

    /// The per-token difference of two ledgers. Defined only when every
    /// count of `rhs` is at most the matching count of `self`; otherwise the
    /// first insufficient token in canonical order is reported.
    pub fn sub(self, rhs: Funds) -> (r: Result<Funds, FundsSubtractionError>)
        ensures
            r == spec_sub(self, rhs),
    {
        if rhs.red > self.red {
            Err(FundsSubtractionError::NotEnoughFunds(Piece::Red))
        } else if rhs.green > self.green {
            Err(FundsSubtractionError::NotEnoughFunds(Piece::Green))
        } else if rhs.blue > self.blue {
            Err(FundsSubtractionError::NotEnoughFunds(Piece::Blue))
        } else if rhs.brown > self.brown {
            Err(FundsSubtractionError::NotEnoughFunds(Piece::Brown))
        } else if rhs.white > self.white {
            Err(FundsSubtractionError::NotEnoughFunds(Piece::White))
        } else if rhs.golden > self.golden {
            Err(FundsSubtractionError::NotEnoughFunds(Piece::Golden))
        } else {
            Ok(Funds {
                red: self.red - rhs.red,
                green: self.green - rhs.green,
                blue: self.blue - rhs.blue,
                brown: self.brown - rhs.brown,
                white: self.white - rhs.white,
                golden: self.golden - rhs.golden,
            })
        }
    }

    /// The total number of tokens held, over all six colors.
    pub fn total(&self) -> (r: u16)
        ensures
            r == self.spec_total(),
    {
        self.red as u16 + self.green as u16 + self.blue as u16 + self.brown as u16
            + self.white as u16 + self.golden as u16
    }
}

/// The per-token sum of two ledgers, each count saturating at 255.
pub open spec fn spec_add(a: Funds, b: Funds) -> Funds {
    Funds {
        red: sat_add(a.red, b.red),
        green: sat_add(a.green, b.green),
        blue: sat_add(a.blue, b.blue),
        brown: sat_add(a.brown, b.brown),
        white: sat_add(a.white, b.white),
        golden: sat_add(a.golden, b.golden),
    }
}

pub open spec fn sat_add(a: u8, b: u8) -> u8 {
    if a + b > 255 {
        255u8
    } else {
        (a + b) as u8
    }
}

/// Every count of `b` is at most the matching count of `a`, so that
/// `a - b` is defined.
pub open spec fn can_sub(a: Funds, b: Funds) -> bool {
    forall_piece(|p: Piece| b.cnt(p) <= a.cnt(p))
}

/// The first token in canonical order whose count in `b` exceeds its count
/// in `a`. Meaningful only when `!can_sub(a, b)`.
pub open spec fn first_insufficient(a: Funds, b: Funds) -> Piece {
    if b.red > a.red {
        Piece::Red
    } else if b.green > a.green {
        Piece::Green
    } else if b.blue > a.blue {
        Piece::Blue
    } else if b.brown > a.brown {
        Piece::Brown
    } else if b.white > a.white {
        Piece::White
    } else {
        Piece::Golden
    }
}

/// The per-token difference, or the first insufficient token.
pub open spec fn spec_sub(a: Funds, b: Funds) -> Result<Funds, FundsSubtractionError> {
    if can_sub(a, b) {
        Ok(sub_all(a, b))
    } else {
        Err(FundsSubtractionError::NotEnoughFunds(first_insufficient(a, b)))
    }
}

/// The per-token difference. Meaningful only when `can_sub(a, b)`.
pub open spec fn sub_all(a: Funds, b: Funds) -> Funds {
    Funds {
        red: (a.red - b.red) as u8,
        green: (a.green - b.green) as u8,
        blue: (a.blue - b.blue) as u8,
        brown: (a.brown - b.brown) as u8,
        white: (a.white - b.white) as u8,
        golden: (a.golden - b.golden) as u8,
    }
}

/// How many of the listed tokens are the token `p`.
pub open spec fn count_piece(s: Seq<Piece>, p: Piece) -> nat
    decreases s.len(),
{
    if s.len() == 0 {
        0
    } else {
        count_piece(s.drop_last(), p) + (if s.last() == p {
            1nat
        } else {
            0nat
        })
    }
}

/// The tally of a token list as a ledger. Exact when the list holds at
/// most 255 tokens of each color (see `lemma_tally_exact`).
pub open spec fn spec_tally(s: Seq<Piece>) -> Funds {
    Funds {
        red: count_piece(s, Piece::Red) as u8,
        green: count_piece(s, Piece::Green) as u8,
        blue: count_piece(s, Piece::Blue) as u8,
        brown: count_piece(s, Piece::Brown) as u8,
        white: count_piece(s, Piece::White) as u8,
        golden: count_piece(s, Piece::Golden) as u8,
    }
}

pub proof fn lemma_count_le_len(s: Seq<Piece>, p: Piece)
    ensures
        count_piece(s, p) <= s.len(),
    decreases s.len(),
{
    if s.len() > 0 {
        lemma_count_le_len(s.drop_last(), p);
    }
}

pub proof fn lemma_count_zero(s: Seq<Piece>, p: Piece)
    ensures
        (count_piece(s, p) == 0) <==> (forall|i: int| 0 <= i < s.len() ==> s[i] != p),
    decreases s.len(),
{
    if s.len() > 0 {
        lemma_count_zero(s.drop_last(), p);
        assert(forall|i: int| 0 <= i < s.len() - 1 ==> s.drop_last()[i] == s[i]);
        assert(s.last() == s[s.len() - 1]);
    }
}

pub proof fn lemma_tally_exact(s: Seq<Piece>)
    requires
        s.len() <= 255,
    ensures
        forall|p: Piece| #[trigger] spec_tally(s).cnt(p) == count_piece(s, p),
{
    assert forall|p: Piece| #[trigger] spec_tally(s).cnt(p) == count_piece(s, p) by {
        lemma_count_le_len(s, p);
    }
}

/// The total of the tally is the length of the list: every token counts
/// for exactly one color.
pub proof fn lemma_count_total(s: Seq<Piece>)
    ensures
        count_piece(s, Piece::Red) + count_piece(s, Piece::Green) + count_piece(s, Piece::Blue)
            + count_piece(s, Piece::Brown) + count_piece(s, Piece::White)
            + count_piece(s, Piece::Golden) == s.len(),
    decreases s.len(),
{
    if s.len() > 0 {
        lemma_count_total(s.drop_last());
    }
}

/// Why a collect-and-discard request was refused.
#[derive(Clone, Copy, PartialEq, Eq, Structural, Debug)]
pub enum CollectError {
    CollectedGolden,
    Collected2OfTheSameWithAnother,
    NotEnoughAtTheBank(Piece),
    CannotCollect2WhenResourceIsAlmostEmpty,
    CannotCollectMoreThanThree,
    CannotDiscardMoreThanThree,
    NotEnoughPiecesToDiscard,
    CannotStoreMoreThan10,
}

/// The bank and player ledgers after a successful collect-and-discard.
#[derive(Clone, Copy, PartialEq, Eq, Structural, Debug)]
pub struct CollectSuccess {
    pub bank_funds: Funds,
    pub player_funds: Funds,
}

impl CollectSuccess {
    pub fn new(bank_funds: Funds, player_funds: Funds) -> (r: CollectSuccess)
        ensures
            r == (CollectSuccess { bank_funds, player_funds }),
    {
        CollectSuccess { bank_funds, player_funds }
    }
}

/// A collect-and-discard request: the bank's ledger, the acting player's
/// ledger, the tokens the player wants to take, and the tokens the player
/// gives back.
#[derive(Clone, PartialEq, Eq, Debug)]
pub struct CollectRequest {
    pub bank_funds: Funds,
    pub player_funds: Funds,
    pub want_to_collect: Vec<Piece>,
    pub discard: Vec<Piece>,
}

impl CollectRequest {
    pub fn new(
        bank_funds: Funds,
        player_funds: Funds,
        want_to_collect: Vec<Piece>,
        discard: Vec<Piece>,
    ) -> (r: CollectRequest)
        ensures
            r.bank_funds == bank_funds,
            r.player_funds == player_funds,
            r.want_to_collect@ == want_to_collect@,
            r.discard@ == discard@,
    {
        CollectRequest { bank_funds, player_funds, want_to_collect, discard }
    }
}

/// The collect-and-discard protocol. The checks run in this order, and the
/// first failing check names the error:
/// 1. the wildcard token cannot be collected;
/// 2. at most 3 tokens may be collected;
/// 3. at most 3 tokens may be discarded;
/// 4. taking two of one color plus a third token is refused;
/// 5. taking two of one color is refused while that color's bank pile is
///    below 4;
/// 6. the bank, credited with the discard, must cover the collection, else
///    the first insufficient token in canonical order is named;
/// 7. the player, credited with the collection, must cover the discard;
/// 8. the player may end with at most 10 tokens in hand.
/// On success, the new bank is `(bank + discard) - collect` and the new
/// player ledger is `(player + collect) - discard`.
pub open spec fn spec_collect(bank: Funds, player: Funds, c: Seq<Piece>, d: Seq<Piece>) -> Result<
    (Funds, Funds),
    CollectError,
> {
    if count_piece(c, Piece::Golden) > 0 {
        Err(CollectError::CollectedGolden)
    } else if c.len() > 3 {
        Err(CollectError::CannotCollectMoreThanThree)
    } else if d.len() > 3 {
        Err(CollectError::CannotDiscardMoreThanThree)
    } else if c.len() == 3 && exists_piece(|p: Piece| count_piece(c, p) >= 2) {
        Err(CollectError::Collected2OfTheSameWithAnother)
    } else if exists_piece(|p: Piece| count_piece(c, p) >= 2 && bank.cnt(p) < 4) {
        Err(CollectError::CannotCollect2WhenResourceIsAlmostEmpty)
    } else {
        let tc = spec_tally(c);
        let td = spec_tally(d);
        let bank_credited = spec_add(bank, td);
        if !can_sub(bank_credited, tc) {
            Err(CollectError::NotEnoughAtTheBank(first_insufficient(bank_credited, tc)))
        } else {
            let player_credited = spec_add(player, tc);
            if !can_sub(player_credited, td) {
                Err(CollectError::NotEnoughPiecesToDiscard)
            } else {
                let new_player = sub_all(player_credited, td);
                if new_player.spec_total() > 10 {
                    Err(CollectError::CannotStoreMoreThan10)
                } else {
                    Ok((sub_all(bank_credited, tc), new_player))
                }
            }
        }
    }
}

/// Tally a token list into a ledger.
fn tally(pieces: &Vec<Piece>) -> (r: Funds)
    requires
        pieces@.len() <= 255,
    ensures
        forall|p: Piece| #[trigger] r.cnt(p) == count_piece(pieces@, p),
        r == spec_tally(pieces@),
{
    let mut f = Funds::new(0, 0, 0, 0, 0, 0);
    let n = pieces.len();
    assert(pieces@.take(0int) =~= Seq::<Piece>::empty());
    for i in 0..n
        invariant
            n == pieces@.len() <= 255,
            forall|p: Piece| #[trigger] f.cnt(p) == count_piece(pieces@.take(i as int), p),
    {
        let p = pieces[i];
        proof {
            assert(pieces@.take(i + 1).drop_last() =~= pieces@.take(i as int));
            assert(pieces@.take(i + 1).last() == pieces@[i as int]);
            lemma_count_le_len(pieces@.take(i as int), p);
        }
        let old_count = f.get(p);
        let f2 = f.with_cnt(p, old_count + 1);
        proof {
            assert forall|q: Piece| #[trigger] f2.cnt(q) == count_piece(pieces@.take(i + 1), q) by {
                assert(f.cnt(q) == count_piece(pieces@.take(i as int), q));
                assert(count_piece(pieces@.take(i + 1), q) == count_piece(pieces@.take(i as int), q)
                    + (if pieces@[i as int] == q {
                    1nat
                } else {
                    0nat
                }));
            }
        }
        f = f2;
    }
    proof {
        assert(pieces@.take(n as int) =~= pieces@);
        lemma_tally_exact(pieces@);
        assert(f.cnt(Piece::Red) == spec_tally(pieces@).cnt(Piece::Red));
        assert(f.cnt(Piece::Green) == spec_tally(pieces@).cnt(Piece::Green));
        assert(f.cnt(Piece::Blue) == spec_tally(pieces@).cnt(Piece::Blue));
        assert(f.cnt(Piece::Brown) == spec_tally(pieces@).cnt(Piece::Brown));
        assert(f.cnt(Piece::White) == spec_tally(pieces@).cnt(Piece::White));
        assert(f.cnt(Piece::Golden) == spec_tally(pieces@).cnt(Piece::Golden));
    }
    f
}

impl Funds {
    /// Construct a ledger by tallying a token list.
    pub fn new_from_list(funds: Vec<Piece>) -> (r: Funds)
        requires
            funds@.len() <= 255,
        ensures
            forall|p: Piece| #[trigger] r.cnt(p) == count_piece(funds@, p),
            r == spec_tally(funds@),
    {
        tally(&funds)
    }

    /// Run the collect-and-discard protocol of `spec_collect` against the
    /// request's bank and player ledgers.
    #[verifier::loop_isolation(false)]
    pub fn collect(collect_request: CollectRequest) -> (r: Result<CollectSuccess, CollectError>)
        ensures
            match r {
                Ok(s) => spec_collect(
                    collect_request.bank_funds,
                    collect_request.player_funds,
                    collect_request.want_to_collect@,
                    collect_request.discard@,
                ) == Ok::<(Funds, Funds), CollectError>((s.bank_funds, s.player_funds)),
                Err(e) => spec_collect(
                    collect_request.bank_funds,
                    collect_request.player_funds,
                    collect_request.want_to_collect@,
                    collect_request.discard@,
                ) == Err::<(Funds, Funds), CollectError>(e),
            },
    {
        let CollectRequest { bank_funds, player_funds, want_to_collect, discard } =
            collect_request;
        let ghost c = want_to_collect@;
        let ghost d = discard@;

        let n = want_to_collect.len();
        for i in 0..n
            invariant
                n == c.len(),
                c == want_to_collect@,
                count_piece(c.take(i as int), Piece::Golden) == 0,
        {
            proof {
                assert(c.take(i + 1).drop_last() =~= c.take(i as int));
                assert(c.take(i + 1).last() == c[i as int]);
            }
            if want_to_collect[i] == Piece::Golden {
                proof {
                    lemma_count_zero(c, Piece::Golden);
                    assert(c[i as int] == Piece::Golden);
                    assert(count_piece(c, Piece::Golden) > 0);
                }
                return Err(CollectError::CollectedGolden);
            }
        }
        proof {
            assert(c.take(n as int) =~= c);
        }

        if n > 3 {
            return Err(CollectError::CannotCollectMoreThanThree);
        }
        if discard.len() > 3 {
            return Err(CollectError::CannotDiscardMoreThanThree);
        }

        let tc = tally(&want_to_collect);
        proof {
            assert(tc.cnt(Piece::Red) == count_piece(c, Piece::Red));
            assert(tc.cnt(Piece::Green) == count_piece(c, Piece::Green));
            assert(tc.cnt(Piece::Blue) == count_piece(c, Piece::Blue));
            assert(tc.cnt(Piece::Brown) == count_piece(c, Piece::Brown));
            assert(tc.cnt(Piece::White) == count_piece(c, Piece::White));
            assert(tc.cnt(Piece::Golden) == count_piece(c, Piece::Golden));
        }
        if n == 3 && (tc.red >= 2 || tc.green >= 2 || tc.blue >= 2 || tc.brown >= 2 || tc.white
            >= 2 || tc.golden >= 2) {
            return Err(CollectError::Collected2OfTheSameWithAnother);
        }
        if (tc.red >= 2 && bank_funds.red < 4) || (tc.green >= 2 && bank_funds.green < 4) || (
        tc.blue >= 2 && bank_funds.blue < 4) || (tc.brown >= 2 && bank_funds.brown < 4) || (
        tc.white >= 2 && bank_funds.white < 4) || (tc.golden >= 2 && bank_funds.golden < 4) {
            return Err(CollectError::CannotCollect2WhenResourceIsAlmostEmpty);
        }

        let td = tally(&discard);
        let bank_credited = bank_funds.add(td);
        let new_bank = match bank_credited.sub(tc) {
            Ok(nb) => nb,
            Err(FundsSubtractionError::NotEnoughFunds(piece_missing)) => {
                return Err(CollectError::NotEnoughAtTheBank(piece_missing));
            },
        };
        let player_credited = player_funds.add(tc);
        let new_player = match player_credited.sub(td) {
            Ok(np) => np,
            Err(FundsSubtractionError::NotEnoughFunds(_)) => {
                return Err(CollectError::NotEnoughPiecesToDiscard);
            },
        };
        if new_player.total() > 10 {
            return Err(CollectError::CannotStoreMoreThan10);
        }
        Ok(CollectSuccess::new(new_bank, new_player))
    }

    /// Expand a ledger into the token list it tallies: each color repeated
    /// its count's number of times, colors in alphabetical order.
    pub fn to_piece_list(&self) -> (r: Vec<Piece>)
        ensures
            r@ == spec_piece_list(*self),
    {
        let mut pieces: Vec<Piece> = Vec::new();
        push_n(&mut pieces, Piece::Blue, self.blue);
        push_n(&mut pieces, Piece::Brown, self.brown);
        push_n(&mut pieces, Piece::Golden, self.golden);
        push_n(&mut pieces, Piece::Green, self.green);
        push_n(&mut pieces, Piece::Red, self.red);
        push_n(&mut pieces, Piece::White, self.white);
        proof {
            assert(pieces@ =~= spec_piece_list(*self));
        }
        pieces
    }
}

/// The token `p`, `n` times over.
pub open spec fn rep(p: Piece, n: int) -> Seq<Piece> {
    Seq::new(n as nat, |i: int| p)
}

/// The token list a ledger expands to: each color repeated its count's
/// number of times, colors in alphabetical order.
pub open spec fn spec_piece_list(f: Funds) -> Seq<Piece> {
    rep(Piece::Blue, f.blue as int) + rep(Piece::Brown, f.brown as int) + rep(
        Piece::Golden,
        f.golden as int,
    ) + rep(Piece::Green, f.green as int) + rep(Piece::Red, f.red as int) + rep(
        Piece::White,
        f.white as int,
    )
}

/// Tokens are conserved: a successful collect-and-discard only moves
/// tokens between the bank and the player, so their per-color sums are
/// unchanged. The bank's piles must have room for the discarded tokens
/// (a pile held at its 255-count bound would swallow a discard).
pub proof fn lemma_collect_conserves_tokens(bank: Funds, player: Funds, c: Seq<Piece>, d: Seq<
    Piece,
>)
    requires
        forall|p: Piece| #[trigger] bank.cnt(p) + count_piece(d, p) <= 255,
        spec_collect(bank, player, c, d) is Ok,
    ensures
        ({
            let pair = spec_collect(bank, player, c, d)->Ok_0;
            forall|p: Piece| #[trigger]
                pair.0.cnt(p) + pair.1.cnt(p) == bank.cnt(p) + player.cnt(p)
        }),
{
    let pair = spec_collect(bank, player, c, d)->Ok_0;
    let tc = spec_tally(c);
    let td = spec_tally(d);
    lemma_tally_exact(c);
    lemma_tally_exact(d);
    assert forall|p: Piece| #[trigger] pair.0.cnt(p) + pair.1.cnt(p) == bank.cnt(p) + player.cnt(
        p,
    ) by {
        lemma_count_le_len(c, p);
        lemma_count_le_len(d, p);
        let np = pair.1;
        assert(np.spec_total() <= 10);
        assert(np.cnt(p) <= np.spec_total()) by {
            match p {
                Piece::Red => {},
                Piece::Green => {},
                Piece::Blue => {},
                Piece::Brown => {},
                Piece::White => {},
                Piece::Golden => {},
            }
        }
        match p {
            Piece::Red => {},
            Piece::Green => {},
            Piece::Blue => {},
            Piece::Brown => {},
            Piece::White => {},
            Piece::Golden => {},
        }
    }
}

/// Asking for the wildcard token is always refused, whatever else the
/// request holds.
pub proof fn lemma_collect_wildcard_always_rejected(
    bank: Funds,
    player: Funds,
    c: Seq<Piece>,
    d: Seq<Piece>,
)
    requires
        count_piece(c, Piece::Golden) > 0,
    ensures
        spec_collect(bank, player, c, d) == Err::<(Funds, Funds), CollectError>(
            CollectError::CollectedGolden,
        ),
{
}

/// Asking for two of one color plus a third token is always refused, in
/// whatever order the three tokens are listed.
pub proof fn lemma_collect_pair_with_third_rejected(
    bank: Funds,
    player: Funds,
    c: Seq<Piece>,
    d: Seq<Piece>,
    p: Piece,
)
    requires
        c.len() == 3,
        d.len() <= 3,
        count_piece(c, p) >= 2,
        count_piece(c, Piece::Golden) == 0,
    ensures
        spec_collect(bank, player, c, d) == Err::<(Funds, Funds), CollectError>(
            CollectError::Collected2OfTheSameWithAnother,
        ),
{
    match p {
        Piece::Red => {},
        Piece::Green => {},
        Piece::Blue => {},
        Piece::Brown => {},
        Piece::White => {},
        Piece::Golden => {},
    }
}

/// Asking for two of one color is refused while that color's bank pile
/// is below 4.
pub proof fn lemma_collect_pair_needs_full_pile(
    bank: Funds,
    player: Funds,
    c: Seq<Piece>,
    d: Seq<Piece>,
    p: Piece,
)
    requires
        c.len() == 2,
        d.len() <= 3,
        count_piece(c, p) == 2,
        p != Piece::Golden,
        bank.cnt(p) < 4,
    ensures
        spec_collect(bank, player, c, d) == Err::<(Funds, Funds), CollectError>(
            CollectError::CannotCollect2WhenResourceIsAlmostEmpty,
        ),
{
    lemma_count_total(c);
    match p {
        Piece::Red => {},
        Piece::Green => {},
        Piece::Blue => {},
        Piece::Brown => {},
        Piece::White => {},
        Piece::Golden => {},
    }
}

/// Asking for two of one color succeeds when that color's bank pile
/// holds exactly 4, and takes the pile down to 2 — provided the player
/// discards nothing and stays within the hand cap.
pub proof fn lemma_collect_pair_at_exactly_four_succeeds(
    bank: Funds,
    player: Funds,
    c: Seq<Piece>,
    p: Piece,
)
    requires
        c.len() == 2,
        count_piece(c, p) == 2,
        p != Piece::Golden,
        bank.cnt(p) == 4,
        player.spec_total() + 2 <= 10,
    ensures
        ({
            let r = spec_collect(bank, player, c, Seq::empty());
            &&& r is Ok
            &&& r->Ok_0.0.cnt(p) == 2
            &&& r->Ok_0.1.cnt(p) == player.cnt(p) + 2
        }),
{
    lemma_count_total(c);
    lemma_count_total(Seq::<Piece>::empty());
    assert(player.cnt(p) <= player.spec_total()) by {
        match p {
            Piece::Red => {},
            Piece::Green => {},
            Piece::Blue => {},
            Piece::Brown => {},
            Piece::White => {},
            Piece::Golden => {},
        }
    }
    match p {
        Piece::Red => {},
        Piece::Green => {},
        Piece::Blue => {},
        Piece::Brown => {},
        Piece::White => {},
        Piece::Golden => {},
    }
}

/// A collect that would leave the player holding more than 10 tokens is
/// refused, even when the collection and the discard are each legal on
/// their own.
pub proof fn lemma_collect_hand_cap(bank: Funds, player: Funds, c: Seq<Piece>, d: Seq<Piece>)
    requires
        count_piece(c, Piece::Golden) == 0,
        c.len() <= 3,
        d.len() <= 3,
        c.len() == 3 ==> forall|q: Piece| #[trigger] count_piece(c, q) <= 1,
        forall|q: Piece| #[trigger] count_piece(c, q) >= 2 ==> bank.cnt(q) >= 4,
        forall|q: Piece| #[trigger]
            count_piece(c, q) <= bank.cnt(q) + count_piece(d, q),
        forall|q: Piece| #[trigger]
            count_piece(d, q) <= player.cnt(q) + count_piece(c, q),
        forall|q: Piece| player.cnt(q) + #[trigger] count_piece(c, q) <= 255,
        player.spec_total() + c.len() - d.len() > 10,
    ensures
        spec_collect(bank, player, c, d) == Err::<(Funds, Funds), CollectError>(
            CollectError::CannotStoreMoreThan10,
        ),
{
    lemma_tally_exact(c);
    lemma_tally_exact(d);
    lemma_count_total(c);
    lemma_count_total(d);
    assert forall|q: Piece| true implies #[trigger] count_piece(c, q) >= 0 by {
        lemma_count_le_len(c, q);
        lemma_count_le_len(d, q);
    }
}

fn push_n(v: &mut Vec<Piece>, p: Piece, n: u8)
    requires
        old(v)@.len() + n <= usize::MAX,
    ensures
        final(v)@ == old(v)@ + rep(p, n as int),
{
    assert(old(v)@ + rep(p, 0) =~= old(v)@);
    for j in 0..n
        invariant
            v@ == old(v)@ + rep(p, j as int),
            v@.len() == old(v)@.len() + j,
            old(v)@.len() + n <= usize::MAX,
    {
        v.push(p);
        proof {
            assert(v@ =~= old(v)@ + rep(p, j + 1));
        }
    }
}

} // verus!
