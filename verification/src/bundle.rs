//! Message bundles: what one fetch returns, once decrypted.
//!
//! A bundle pairs each message with its sender by position. The sender of the
//! message at position `i` is the sender at position `i`, also where two
//! messages carry the same text.

use vstd::prelude::*;
use crate::error::ClientError;

verus! {

/// What the cipher made of a server's reply: the message texts and the
/// sender names, each in the order of the reply.
#[derive(Debug, Clone, PartialEq, Eq)]
pub struct Plaintext {
    pub messages: Vec<String>,
    pub senders: Vec<String>,
}

/// A message and its sender, as plain text.
pub type Pair = (Seq<char>, Seq<char>);

/// Pairs two sequences by position. Meant for sequences of one length.
pub open spec fn pair_up(messages: Seq<Seq<char>>, senders: Seq<Seq<char>>) -> Seq<Pair> {
    Seq::new(messages.len(), |i: int| (messages[i], senders[i]))
}

/// The messages of a sequence of pairs.
pub open spec fn messages_of(pairs: Seq<Pair>) -> Seq<Seq<char>> {
    pairs.map_values(|pair: Pair| pair.0)
}

/// The senders of a sequence of pairs.
pub open spec fn senders_of(pairs: Seq<Pair>) -> Seq<Seq<char>> {
    pairs.map_values(|pair: Pair| pair.1)
}

/// Messages and their senders, paired by position. A bundle always holds as
/// many senders as messages.
#[derive(Debug, PartialEq, Eq)]
pub struct MessageBundle {
    messages: Vec<String>,
    senders: Vec<String>,
}

impl View for MessageBundle {
    type V = Seq<Pair>;

    closed spec fn view(&self) -> Seq<Pair> {
        pair_up(self.messages.deep_view(), self.senders.deep_view())
    }
}

impl MessageBundle {
    #[verifier::type_invariant]
    spec fn well_formed(self) -> bool {
        self.messages@.len() == self.senders@.len()
    }

    /// The number of messages, which is the number of senders.
    pub fn len(&self) -> (n: usize)
        ensures
            n == self@.len(),
    {
        self.messages.len()
    }

    /// The message at position `index` and its sender, or `None` past the
    /// end of the bundle.
    pub fn pair_at(&self, index: usize) -> (r: Option<(&String, &String)>)
        ensures
            index < self@.len() ==> (r matches Some((message, sender)) && (message@, sender@)
                == self@[index as int]),
            index >= self@.len() ==> r is None,
    {
        proof {
            use_type_invariant(self);
        }
        if index < self.messages.len() {
            Some((&self.messages[index], &self.senders[index]))
        } else {
            None
        }
    }

    /// The message texts, in order.
    pub fn messages(&self) -> (messages: &Vec<String>)
        ensures
            messages.deep_view() == messages_of(self@),
            messages@.len() == self@.len(),
    {
        proof {
            use_type_invariant(self);
        }
        &self.messages
    }

    /// The sender names, in the order of the messages.
    pub fn senders(&self) -> (senders: &Vec<String>)
        ensures
            senders.deep_view() == senders_of(self@),
            senders@.len() == self@.len(),
    {
        proof {
            use_type_invariant(self);
        }
        &self.senders
    }
}

/// Turns a decrypted reply into a bundle. `decrypted` is `None` where the
/// reply did not decrypt under the held key.
///
/// A reply with as many senders as messages gives the bundle that pairs them
/// by position. Any other reply is refused, so that no bundle ever holds
/// sequences of different lengths.
pub fn decode(decrypted: Option<Plaintext>) -> (r: Result<MessageBundle, ClientError>)
    ensures
        match decrypted {
            None => r == Err::<MessageBundle, ClientError>(ClientError::Decryption),
            Some(plain) => if plain.messages@.len() == plain.senders@.len() {
                r matches Ok(bundle) && bundle@ == pair_up(
                    plain.messages.deep_view(),
                    plain.senders.deep_view(),
                )
            } else {
                r == Err::<MessageBundle, ClientError>(
                    ClientError::MalformedBundle {
                        messages: plain.messages@.len() as usize,
                        senders: plain.senders@.len() as usize,
                    },
                )
            },
        },
{
    match decrypted {
        None => Err(ClientError::Decryption),
        Some(plain) => {
            let messages = plain.messages;
            let senders = plain.senders;
            if messages.len() == senders.len() {
                Ok(MessageBundle { messages, senders })
            } else {
                Err(ClientError::MalformedBundle { messages: messages.len(), senders: senders.len() })
            }
        },
    }
}

/// Pairing loses nothing: from the pairs of two sequences of one length,
/// the messages and the senders come back as they were.
pub proof fn lemma_pairing_keeps_both(messages: Seq<Seq<char>>, senders: Seq<Seq<char>>)
    requires
        messages.len() == senders.len(),
    ensures
        messages_of(pair_up(messages, senders)) == messages,
        senders_of(pair_up(messages, senders)) == senders,
        pair_up(messages, senders).len() == messages.len(),
{
}

/// Taking a sequence of pairs apart and pairing the two halves again gives
/// the pairs back: a bundle is no more than its messages and its senders.
pub proof fn lemma_pairs_come_back(pairs: Seq<Pair>)
    ensures
        pair_up(messages_of(pairs), senders_of(pairs)) == pairs,
{
}

/// The sender paired with a message is the one at the message's own
/// position, whatever the other messages say.
pub proof fn lemma_pairing_is_positional(
    messages: Seq<Seq<char>>,
    senders: Seq<Seq<char>>,
    i: int,
)
    requires
        messages.len() == senders.len(),
        0 <= i < messages.len(),
    ensures
        pair_up(messages, senders)[i] == (messages[i], senders[i]),
{
}

} // verus!
