//! Identities of remote objects.

use crate::random::gen_range;
use rand::thread_rng;
use vstd::prelude::*;
use vstd::std_specs::cmp::PartialEqSpec;

verus! {

/// The mathematical value of an [`Id`]: the variant and the payload as a
/// sequence of characters.
pub enum IdView {
    EntityId(Seq<char>),
    DeletedEntityId(Seq<char>),
    PlaceHolderId(Seq<char>),
}

impl IdView {
    /// The payload, whatever the variant.
    pub open spec fn payload(self) -> Seq<char> {
        match self {
            IdView::EntityId(s) => s,
            IdView::DeletedEntityId(s) => s,
            IdView::PlaceHolderId(s) => s,
        }
    }
}

/// Identifier of a remote object.
#[derive(Debug, Hash)]
pub enum Id {
    /// The object exists remotely under this service-assigned identifier.
    EntityId(String),
    /// The object existed under this identifier and has been removed.
    DeletedEntityId(String),
    /// Provisional, client-generated identifier of an object that the
    /// service has not created yet.
    PlaceHolderId(String),
}

impl View for Id {
    type V = IdView;

    open spec fn view(&self) -> IdView {
        match self {
            Id::EntityId(s) => IdView::EntityId(s@),
            Id::DeletedEntityId(s) => IdView::DeletedEntityId(s@),
            Id::PlaceHolderId(s) => IdView::PlaceHolderId(s@),
        }
    }
}

impl Clone for Id {
    fn clone(&self) -> (r: Id)
        ensures
            r == *self,
    {
        match self {
            Id::EntityId(s) => Id::EntityId(s.clone()),
            Id::DeletedEntityId(s) => Id::DeletedEntityId(s.clone()),
            Id::PlaceHolderId(s) => Id::PlaceHolderId(s.clone()),
        }
    }
}

impl PartialEq for Id {
    /// Two identities are equal when both the variant and the payload agree.
    fn eq(&self, other: &Id) -> (r: bool) {
        match (self, other) {
            (Id::EntityId(left), Id::EntityId(right)) => *left == *right,
            (Id::DeletedEntityId(left), Id::DeletedEntityId(right)) => *left == *right,
            (Id::PlaceHolderId(left), Id::PlaceHolderId(right)) => *left == *right,
            _ => false,
        }
    }
}

impl vstd::std_specs::cmp::PartialEqSpecImpl for Id {
    open spec fn obeys_eq_spec() -> bool {
        true
    }

    open spec fn eq_spec(&self, other: &Id) -> bool {
        self@ == other@
    }
}

impl Eq for Id {}

/// The character of the decimal digit `d`, for `d` from 0 to 9.
pub open spec fn digit_char(d: int) -> char {
    ('0' as int + d) as char
}

/// The payload of the placeholder made of `letter` and `number`: the letter,
/// then the number in six decimal digits, padded with zeros on the left.
pub open spec fn placeholder_payload(letter: char, number: int) -> Seq<char> {
    seq![
        letter,
        digit_char(number / 100000 % 10),
        digit_char(number / 10000 % 10),
        digit_char(number / 1000 % 10),
        digit_char(number / 100 % 10),
        digit_char(number / 10 % 10),
        digit_char(number % 10),
    ]
}

/// The shape of a placeholder's payload: one upper-case ASCII letter and six
/// decimal digits after it.
pub open spec fn is_placeholder_payload(s: Seq<char>) -> bool {
    &&& s.len() == 7
    &&& 'A' <= s[0] <= 'Z'
    &&& forall|i: int| 1 <= i < 7 ==> '0' <= #[trigger] s[i] <= '9'
}

/// Every payload made of an upper-case letter and a number has the
/// placeholder shape.
pub proof fn lemma_placeholder_payload_shape(letter: char, number: int)
    requires
        'A' <= letter <= 'Z',
        0 <= number,
    ensures
        is_placeholder_payload(placeholder_payload(letter, number)),
{
}

fn push_digit(s: &mut String, d: u32)
    requires
        d < 10,
    ensures
        final(s)@ == old(s)@.push(digit_char(d as int)),
{
    let code: u8 = '0' as u8 + d as u8;
    s.push(code as char);
}

fn placeholder_of(letter: char, number: u32) -> (id: Id)
    requires
        'A' <= letter <= 'Z',
        number <= 999_999,
    ensures
        id@ == IdView::PlaceHolderId(placeholder_payload(letter, number as int)),
{
    let mut s = String::new();
    s.push(letter);
    push_digit(&mut s, number / 100000 % 10);
    push_digit(&mut s, number / 10000 % 10);
    push_digit(&mut s, number / 1000 % 10);
    push_digit(&mut s, number / 100 % 10);
    push_digit(&mut s, number / 10 % 10);
    push_digit(&mut s, number % 10);
    assert(s@ =~= placeholder_payload(letter, number as int));
    Id::PlaceHolderId(s)
}

impl Id {
    /// The placeholder whose payload is `letter` followed by `number` in six
    /// digits. There is one for each upper-case ASCII letter and each number
    /// of at most six digits, and for nothing else.
    pub fn placeholder(letter: char, number: u32) -> (r: Option<Id>)
        ensures
            r is Some <==> 'A' <= letter <= 'Z' && number <= 999_999,
            r matches Some(id) ==> id@ == IdView::PlaceHolderId(
                placeholder_payload(letter, number as int),
            ),
    {
        if letter < 'A' || letter > 'Z' || number > 999_999 {
            None
        } else {
            Some(placeholder_of(letter, number))
        }
    }

    /// A fresh placeholder: a letter drawn from `A` to `Z` and a number drawn
    /// from 0 up to, and not including, 999999.
    pub fn generate_placeholder_id() -> (id: Id)
        ensures
            id is PlaceHolderId,
            is_placeholder_payload(id@.payload()),
            (exists|letter: char, number: int|
                'A' <= letter <= 'Z' && 0 <= number < 999_999 && id@ == IdView::PlaceHolderId(
                    #[trigger] placeholder_payload(letter, number),
                )),
    {
        let mut rng = thread_rng();
        let code: u32 = gen_range(&mut rng, 'A' as u32, 'Z' as u32 + 1);
        let number: u32 = gen_range(&mut rng, 0, 999_999);
        let letter: char = code as u8 as char;
        proof {
            lemma_placeholder_payload_shape(letter, number as int);
        }
        placeholder_of(letter, number)
    }
}

/// Equality tells identities apart by payload and by variant: two confirmed
/// identities with different payloads are unequal, and a confirmed identity
/// is unequal to the placeholder and to the deleted identity of the same
/// payload.
pub proof fn lemma_equality_is_variant_sensitive(a: String, b: String)
    requires
        a@ != b@,
    ensures
        !Id::EntityId(a).eq_spec(&Id::EntityId(b)),
        !Id::EntityId(a).eq_spec(&Id::PlaceHolderId(a)),
        !Id::EntityId(a).eq_spec(&Id::DeletedEntityId(a)),
{
}

} // verus!
