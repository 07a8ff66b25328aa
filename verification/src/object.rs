//! Identifiers of protocol objects, and the contract by which an object
//! receives the messages addressed to it.

use core::cmp::Ordering;

use vstd::prelude::*;

use crate::bundle::{Bundle, BundleView};
use crate::cursor::Cursor;
use crate::defs::{Header, SkylaneError, Task};

verus! {

/// Identifier of a protocol object within one connection.
///
/// The raw value `0` is reserved: it names no object.
///
/// Identifiers are equal when their raw values are, and are ordered as their
/// raw values are.
#[derive(Clone, Copy, PartialEq, Eq, Hash, Ord, Debug, Structural)]
pub struct ObjectId(u32);

impl View for ObjectId {
    type V = u32;

    closed spec fn view(&self) -> u32 {
        self.0
    }
}

impl ObjectId {
    /// Constructs an identifier from its raw value. The null value is accepted.
    pub fn new(value: u32) -> (id: Self)
        ensures
            id@ == value,
    {
        ObjectId(value)
    }

    /// Returns the raw value of the identifier.
    pub fn get_value(&self) -> (value: u32)
        ensures
            value == self@,
    {
        self.0
    }

    /// Returns the identifier that follows this one in allocation order.
    ///
    /// The largest identifier has no successor; what to do once it is reached
    /// is left to the caller.
    pub fn incremented(&self) -> (next: ObjectId)
        requires
            self@ < u32::MAX,
        ensures
            next@ == self@ + 1,
    {
        ObjectId(self.0 + 1)
    }

    /// Renders the identifier for diagnostics: the decimal numeral of its raw
    /// value.
    pub fn to_string(&self) -> (text: String)
        ensures
            text@ == decimal(self@ as nat),
    {
        decimal_text(self.0)
    }

    /// Tells whether this is the reserved identifier that names no object.
    pub fn is_null(&self) -> (null: bool)
        ensures
            null == (self@ == 0),
    {
        self.0 == 0
    }
}

impl PartialOrd for ObjectId {
    fn partial_cmp(&self, other: &Self) -> (order: Option<Ordering>) {
        if self.0 < other.0 {
            Some(Ordering::Less)
        } else if self.0 == other.0 {
            Some(Ordering::Equal)
        } else {
            Some(Ordering::Greater)
        }
    }
}

impl vstd::std_specs::cmp::PartialOrdSpecImpl for ObjectId {
    open spec fn obeys_partial_cmp_spec() -> bool {
        true
    }

    open spec fn partial_cmp_spec(&self, other: &Self) -> Option<Ordering> {
        if self@ < other@ {
            Some(Ordering::Less)
        } else if self@ == other@ {
            Some(Ordering::Equal)
        } else {
            Some(Ordering::Greater)
        }
    }
}

/// Two identifiers are the same exactly when their raw values are.
pub proof fn lemma_equal_by_value(a: ObjectId, b: ObjectId)
    ensures
        (a == b) == (a@ == b@),
{
}

/// The character that stands for a digit.
pub open spec fn digit(d: nat) -> char {
    if d == 0 {
        '0'
    } else if d == 1 {
        '1'
    } else if d == 2 {
        '2'
    } else if d == 3 {
        '3'
    } else if d == 4 {
        '4'
    } else if d == 5 {
        '5'
    } else if d == 6 {
        '6'
    } else if d == 7 {
        '7'
    } else if d == 8 {
        '8'
    } else {
        '9'
    }
}

/// The decimal numeral of a number: its digits, the most significant first,
/// with no leading zero but for the number zero itself.
pub open spec fn decimal(n: nat) -> Seq<char>
    decreases n,
{
    if n < 10 {
        seq![digit(n)]
    } else {
        decimal(n / 10).push(digit(n % 10))
    }
}

fn digit_text(d: u32) -> (text: &'static str)
    requires
        d < 10,
    ensures
        text@ == seq![digit(d as nat)],
{
    proof {
        reveal_strlit("0");
        reveal_strlit("1");
        reveal_strlit("2");
        reveal_strlit("3");
        reveal_strlit("4");
        reveal_strlit("5");
        reveal_strlit("6");
        reveal_strlit("7");
        reveal_strlit("8");
        reveal_strlit("9");
    }
    let text = if d == 0 {
        "0"
    } else if d == 1 {
        "1"
    } else if d == 2 {
        "2"
    } else if d == 3 {
        "3"
    } else if d == 4 {
        "4"
    } else if d == 5 {
        "5"
    } else if d == 6 {
        "6"
    } else if d == 7 {
        "7"
    } else if d == 8 {
        "8"
    } else {
        "9"
    };
    assert(text@ =~= seq![digit(d as nat)]);
    text
}

fn decimal_text(n: u32) -> (text: String)
    ensures
        text@ == decimal(n as nat),
    decreases n,
{
    if n < 10 {
        String::from_str(digit_text(n))
    } else {
        let mut text = decimal_text(n / 10);
        text.append(digit_text(n % 10));
        assert(text@ =~= decimal(n as nat));
        text
    }
}

/// Raw value of the identifier of the root object, which is bound for as long
/// as the connection lives.
pub const DISPLAY_ID: u32 = 1;

/// What every protocol object implements to receive the messages routed to it.
pub trait Object: Sized {
    /// The handler's own account of one invocation: started in state `before`
    /// on the given message, it may end in state `after`, having asked and
    /// written `effects`, and return `outcome`.
    ///
    /// Each implementation states this for itself and is held to it where it
    /// is verified; the router promises of a routed message what the target's
    /// account promises. A handler that gives no account admits every
    /// behaviour.
    open spec fn dispatched(
        before: Self,
        header: Header,
        bytes: Seq<u8>,
        fds: Seq<i32>,
        after: Self,
        effects: BundleView<Self>,
        outcome: Result<Task, SkylaneError>,
    ) -> bool {
        true
    }

    /// Handles one incoming message.
    ///
    /// - `bundle` records what the handler asks of the registry and writes to the peer.
    /// - `header` tells which operation was invoked and how long the payload is.
    /// - `bytes_buf` ranges over the payload, without the header.
    /// - `fds_buf` ranges over the descriptors that came with the message.
    ///
    /// A handler is always given a fresh mediator and cursors that stand at
    /// their start; the byte cursor holds exactly as many bytes as the header
    /// announces.
    fn dispatch(
        &mut self,
        bundle: &mut Bundle<Self>,
        header: &Header,
        bytes_buf: &mut Cursor<u8>,
        fds_buf: &mut Cursor<i32>,
    ) -> (outcome: Result<Task, SkylaneError>)
        requires
            old(bundle)@.requests.len() == 0,
            old(bundle)@.outbound.len() == 0,
            old(bytes_buf)@.position == 0,
            old(bytes_buf)@.remaining() == header.length,
            old(fds_buf)@.position == 0,
        ensures
            Self::dispatched(
                *old(self),
                *header,
                old(bytes_buf)@.data,
                old(fds_buf)@.data,
                *final(self),
                final(bundle)@,
                outcome,
            ),
    ;
}

} // verus!
