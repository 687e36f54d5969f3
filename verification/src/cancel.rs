//! Cancellation, one token per transfer. Cancelling one transfer leaves every
//! other transfer alone.

use crate::seqs::{first_index, lemma_first_index, lemma_first_index_is};
use crate::text::equals;
use vstd::prelude::*;

verus! {

/// The token of one transfer.
#[derive(Clone, Debug, PartialEq, Eq)]
pub struct CancelToken {
    pub transfer_id: String,
    pub cancelled: bool,
}

/// [`CancelToken`] as a value of specifications.
pub struct TokenModel {
    pub transfer_id: Seq<char>,
    pub cancelled: bool,
}

impl DeepView for CancelToken {
    type V = TokenModel;

    open spec fn deep_view(&self) -> TokenModel {
        TokenModel { transfer_id: self.transfer_id@, cancelled: self.cancelled }
    }
}

/// The index of the first token of a transfer, or the number of tokens.
pub open spec fn index_of_transfer(tokens: Seq<TokenModel>, transfer_id: Seq<char>) -> int {
    first_index(tokens, |t: TokenModel| t.transfer_id == transfer_id)
}

/// Whether a transfer is cancelled: whether it has a token that says so. A
/// transfer without a token is not cancelled.
pub open spec fn is_cancelled_in(tokens: Seq<TokenModel>, transfer_id: Seq<char>) -> bool {
    let at = index_of_transfer(tokens, transfer_id);
    at < tokens.len() && tokens[at].cancelled
}

/// Whether a transfer has a token.
pub open spec fn is_registered_in(tokens: Seq<TokenModel>, transfer_id: Seq<char>) -> bool {
    index_of_transfer(tokens, transfer_id) < tokens.len()
}

/// The tokens with that of a transfer set to `cancelled`; a transfer without a
/// token gets one.
pub open spec fn with_token(tokens: Seq<TokenModel>, transfer_id: Seq<char>, cancelled: bool) -> Seq<
    TokenModel,
> {
    let at = index_of_transfer(tokens, transfer_id);
    let token = TokenModel { transfer_id, cancelled };
    if at < tokens.len() {
        tokens.update(at, token)
    } else {
        tokens.push(token)
    }
}

/// The tokens of the transfers that are going on.
pub struct CancellationBoard {
    tokens: Vec<CancelToken>,
}

impl View for CancellationBoard {
    type V = Seq<TokenModel>;

    closed spec fn view(&self) -> Seq<TokenModel> {
        self.tokens.deep_view()
    }
}

impl CancellationBoard {
    /// A board without tokens.
    pub fn new() -> (board: CancellationBoard)
        ensures
            board@ == Seq::<TokenModel>::empty(),
    {
        let board = CancellationBoard { tokens: Vec::new() };
        proof {
            assert(board@ =~= Seq::<TokenModel>::empty());
        }
        board
    }

    /// The index of the first token of a transfer, or the number of tokens.
    fn find(&self, transfer_id: &str) -> (at: usize)
        ensures
            at == index_of_transfer(self@, transfer_id@),
            at <= self.tokens.len(),
    {
        let ghost p = |t: TokenModel| t.transfer_id == transfer_id@;
        let mut i: usize = 0;
        while i < self.tokens.len()
            invariant
                i <= self.tokens.len(),
                p == (|t: TokenModel| t.transfer_id == transfer_id@),
                forall|j: int| 0 <= j < i ==> !p(#[trigger] self@[j]),
            decreases self.tokens.len() - i,
        {
            if equals(self.tokens[i].transfer_id.as_str(), transfer_id) {
                proof {
                    assert(p(self@[i as int]));
                    lemma_first_index_is(self@, p, i as int);
                }
                return i;
            }
            i += 1;
        }
        proof {
            lemma_first_index_is(self@, p, i as int);
        }
        i
    }

    /// Sets the token of a transfer.
    fn set(&mut self, transfer_id: &str, cancelled: bool)
        ensures
            final(self)@ == with_token(old(self)@, transfer_id@, cancelled),
    {
        let ghost before = self@;
        let at = self.find(transfer_id);
        let token = CancelToken { transfer_id: transfer_id.to_owned(), cancelled };
        if at < self.tokens.len() {
            self.tokens.set(at, token);
            proof {
                assert(self@ =~= before.update(at as int, token.deep_view()));
            }
        } else {
            self.tokens.push(token);
            proof {
                assert(self@ =~= before.push(token.deep_view()));
            }
        }
    }

    /// Gives a transfer that begins a token that is not cancelled.
    pub fn register(&mut self, transfer_id: &str)
        ensures
            final(self)@ == with_token(old(self)@, transfer_id@, false),
    {
        self.set(transfer_id, false);
    }

    /// Cancels a transfer. Whether it had a token, and so was going on.
    pub fn cancel(&mut self, transfer_id: &str) -> (known: bool)
        ensures
            known == is_registered_in(old(self)@, transfer_id@),
            final(self)@ == (if known {
                with_token(old(self)@, transfer_id@, true)
            } else {
                old(self)@
            }),
    {
        let at = self.find(transfer_id);
        if at < self.tokens.len() {
            self.set(transfer_id, true);
            true
        } else {
            false
        }
    }

    /// Cancels every transfer that is going on.
    pub fn cancel_all(&mut self)
        ensures
            final(self)@.len() == old(self)@.len(),
            forall|i: int|
                0 <= i < old(self)@.len() ==> (#[trigger] final(self)@[i]) == (TokenModel {
                    transfer_id: old(self)@[i].transfer_id,
                    cancelled: true,
                }),
    {
        let ghost before = self@;
        let mut i: usize = 0;
        while i < self.tokens.len()
            invariant
                i <= self.tokens.len(),
                self@.len() == before.len(),
                forall|j: int|
                    0 <= j < i ==> (#[trigger] self@[j]) == (TokenModel {
                        transfer_id: before[j].transfer_id,
                        cancelled: true,
                    }),
                forall|j: int| i <= j < before.len() ==> (#[trigger] self@[j]) == before[j],
            decreases self.tokens.len() - i,
        {
            let ghost so_far = self@;
            proof {
                assert(so_far[i as int] == before[i as int]);
                assert(so_far[i as int] == self.tokens[i as int].deep_view());
            }
            let token = CancelToken {
                transfer_id: self.tokens[i].transfer_id.clone(),
                cancelled: true,
            };
            self.tokens.set(i, token);
            proof {
                assert(self@ =~= so_far.update(i as int, token.deep_view()));
                assert forall|j: int| 0 <= j < i + 1 implies (#[trigger] self@[j]) == (TokenModel {
                    transfer_id: before[j].transfer_id,
                    cancelled: true,
                }) by {
                    if j < i {
                        assert(self@[j] == so_far[j]);
                    }
                }
                assert forall|j: int| i + 1 <= j < before.len() implies (#[trigger] self@[j])
                    == before[j] by {
                    assert(self@[j] == so_far[j]);
                }
            }
            i += 1;
        }
    }

    /// Whether a transfer is cancelled.
    pub fn is_cancelled(&self, transfer_id: &str) -> (cancelled: bool)
        ensures
            cancelled == is_cancelled_in(self@, transfer_id@),
    {
        let at = self.find(transfer_id);
        at < self.tokens.len() && self.tokens[at].cancelled
    }

    /// Takes the tokens of a transfer that is over off the board.
    pub fn release(&mut self, transfer_id: &str)
        ensures
            !is_registered_in(final(self)@, transfer_id@),
            forall|other: Seq<char>|
                other != transfer_id@ ==> is_cancelled_in(final(self)@, other) == is_cancelled_in(
                    old(self)@,
                    other,
                ) && is_registered_in(final(self)@, other) == is_registered_in(old(self)@, other),
    {
        let ghost before = self@;
        let mut kept: Vec<CancelToken> = Vec::new();
        let mut i: usize = 0;
        while i < self.tokens.len()
            invariant
                i <= self.tokens.len(),
                self@ == before,
                forall|j: int| 0 <= j < kept.len() ==> (#[trigger] kept.deep_view()[j]).transfer_id
                    != transfer_id@,
                forall|other: Seq<char>|
                    other != transfer_id@ ==> lookup(kept.deep_view(), other) == lookup(
                        before.take(i as int),
                        other,
                    ),
            decreases self.tokens.len() - i,
        {
            let ghost so_far = kept.deep_view();
            let ghost prefix = before.take(i as int);
            proof {
                assert(before.take(i + 1) =~= prefix.push(before[i as int]));
                assert(before[i as int] == self.tokens[i as int].deep_view());
            }
            let same = equals(self.tokens[i].transfer_id.as_str(), transfer_id);
            if !same {
                let copy = CancelToken {
                    transfer_id: self.tokens[i].transfer_id.clone(),
                    cancelled: self.tokens[i].cancelled,
                };
                kept.push(copy);
                proof {
                    assert(kept.deep_view() =~= so_far.push(before[i as int]));
                }
            }
            proof {
                assert forall|other: Seq<char>| other != transfer_id@ implies lookup(
                    kept.deep_view(),
                    other,
                ) == lookup(before.take(i + 1), other) by {
                    lemma_lookup_push(prefix, before[i as int], other);
                    if !same {
                        lemma_lookup_push(so_far, before[i as int], other);
                    }
                }
            }
            i += 1;
        }
        proof {
            assert(before.take(before.len() as int) =~= before);
            let p = |t: TokenModel| t.transfer_id == transfer_id@;
            lemma_first_index_is(kept.deep_view(), p, kept.len() as int);
            assert forall|other: Seq<char>| other != transfer_id@ implies is_cancelled_in(
                kept.deep_view(),
                other,
            ) == is_cancelled_in(before, other) && is_registered_in(kept.deep_view(), other)
                == is_registered_in(before, other) by {
                assert(lookup(kept.deep_view(), other) == lookup(before, other));
            }
        }
        self.tokens = kept;
    }
}

/// The first token of a transfer, if it has one.
pub open spec fn lookup(tokens: Seq<TokenModel>, transfer_id: Seq<char>) -> Option<TokenModel> {
    let at = index_of_transfer(tokens, transfer_id);
    if at < tokens.len() {
        Some(tokens[at])
    } else {
        None
    }
}

/// Appending a token changes what is found only for a transfer that had none.
pub proof fn lemma_lookup_push(tokens: Seq<TokenModel>, token: TokenModel, transfer_id: Seq<char>)
    ensures
        lookup(tokens.push(token), transfer_id) == (match lookup(tokens, transfer_id) {
            Some(found) => Some(found),
            None => if token.transfer_id == transfer_id {
                Some(token)
            } else {
                None
            },
        }),
{
    let p = |t: TokenModel| t.transfer_id == transfer_id;
    lemma_first_index(tokens, p);
    let k = first_index(tokens, p);
    let longer = tokens.push(token);
    assert forall|j: int| 0 <= j < k implies !p(#[trigger] longer[j]) by {
        assert(longer[j] == tokens[j]);
    }
    if k < tokens.len() {
        assert(longer[k] == tokens[k]);
        lemma_first_index_is(longer, p, k);
    } else if p(token) {
        assert(longer[k] == token);
        lemma_first_index_is(longer, p, k);
    } else {
        assert forall|j: int| 0 <= j < k + 1 implies !p(#[trigger] longer[j]) by {
            if j < k {
                assert(longer[j] == tokens[j]);
            }
        }
        lemma_first_index_is(longer, p, k + 1);
    }
}

/// Setting the token of one transfer changes nothing for any other: cancelling
/// one transfer cancels no other.
pub proof fn lemma_with_token_is_local(
    tokens: Seq<TokenModel>,
    transfer_id: Seq<char>,
    cancelled: bool,
    other: Seq<char>,
)
    requires
        other != transfer_id,
    ensures
        is_cancelled_in(with_token(tokens, transfer_id, cancelled), other) == is_cancelled_in(
            tokens,
            other,
        ),
        is_registered_in(with_token(tokens, transfer_id, cancelled), other) == is_registered_in(
            tokens,
            other,
        ),
        is_cancelled_in(with_token(tokens, transfer_id, cancelled), transfer_id) == cancelled,
        is_registered_in(with_token(tokens, transfer_id, cancelled), transfer_id),
{
    let p = |t: TokenModel| t.transfer_id == transfer_id;
    let q = |t: TokenModel| t.transfer_id == other;
    lemma_first_index(tokens, p);
    lemma_first_index(tokens, q);
    let at = first_index(tokens, p);
    let k = first_index(tokens, q);
    let after = with_token(tokens, transfer_id, cancelled);
    let token = TokenModel { transfer_id, cancelled };
    // the transfer itself
    assert forall|j: int| 0 <= j < at implies !p(#[trigger] after[j]) by {
        assert(after[j] == tokens[j]);
    }
    assert(after[at] == token);
    assert(p(after[at]));
    lemma_first_index_is(after, p, at);
    // any other transfer
    if k < tokens.len() {
        assert(k != at);
        assert(after[k] == tokens[k]);
        assert forall|j: int| 0 <= j < k implies !q(#[trigger] after[j]) by {
            if j == at {
            } else {
                assert(after[j] == tokens[j]);
            }
        }
        lemma_first_index_is(after, q, k);
    } else {
        assert forall|j: int| 0 <= j < after.len() implies !q(#[trigger] after[j]) by {
            if j == at {
            } else {
                assert(after[j] == tokens[j]);
            }
        }
        lemma_first_index_is(after, q, after.len() as int);
    }
}

} // verus!
