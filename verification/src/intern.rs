//! Small numbers for identifiers: the table that gives each identifier of a
//! pass the count at which it was first seen, and the stage that writes the
//! numbers into the document.

use crate::bytes::bytes_eq;
use crate::error::result_view;
use crate::error::Error;
use crate::error::ErrorView;
use crate::event::visit_view;
use crate::event::Event;
use crate::event::EventView;
use crate::event::VisitProcessing;
use crate::event::VisitProcessingView;
use crate::event::VisitResult;
use crate::event::XmlNodeVisitor;
use crate::guid::Guid;
use crate::guid::GUID_LEN;
use crate::tag::CurrentTag;
use crate::xml::EQUALS;
use vstd::prelude::*;

verus! {

/// The byte of the digit `0`.
pub const ZERO: u8 = 0x30;

/// The number that a table gives an identifier: one more than the place at
/// which the identifier stands in it, or nothing where it does not.
pub open spec fn interned(table: Seq<Seq<u8>>, id: Seq<u8>) -> Option<u32> {
    match table.index_of_first(id) {
        Some(i) => Some((i + 1) as u32),
        None => None,
    }
}

/// What asking a table for an identifier's number does to the table, and the
/// answer. A known identifier gets its number and the table stays. An unknown
/// one is too long, or finds the table full, or is put behind the others and
/// gets the count of identifiers that the table then holds.
pub open spec fn intern(table: Seq<Seq<u8>>, id: Seq<u8>) -> (Seq<Seq<u8>>, Result<u32, ErrorView>) {
    if table.contains(id) {
        (table, Ok(interned(table, id).unwrap()))
    } else if id.len() > GUID_LEN {
        (table, Err(ErrorView::IdentifierTooLong { text: id }))
    } else if table.len() >= u32::MAX {
        (table, Err(ErrorView::CounterOverflow))
    } else {
        (table.push(id), Ok((table.len() + 1) as u32))
    }
}

/// A table as a pass can build it: no identifier stands in it twice, and
/// every number fits.
pub open spec fn table_wf(table: Seq<Seq<u8>>) -> bool {
    &&& table.no_duplicates()
    &&& table.len() <= u32::MAX
}

/// The identifiers of one pass in the order in which they were first seen,
/// each with a small number: the first gets 1, the next 2, and so on.
pub struct GuidMap {
    known: Vec<Guid>,
}

impl View for GuidMap {
    type V = Seq<Seq<u8>>;

    closed spec fn view(&self) -> Seq<Seq<u8>> {
        self.known.deep_view()
    }
}

impl GuidMap {
    #[verifier::type_invariant]
    spec fn inv(self) -> bool {
        table_wf(self.known.deep_view())
    }

    /// A table that knows no identifier.
    pub fn new() -> (map: Self)
        ensures
            map@ == Seq::<Seq<u8>>::empty(),
    {
        let map = GuidMap { known: Vec::new() };
        assert(map.known.deep_view() =~= Seq::<Seq<u8>>::empty());
        map
    }

    /// States what holds of every table.
    pub fn check(&self)
        ensures
            table_wf(self@),
    {
        proof {
            use_type_invariant(self);
        }
    }

    /// The number of the identifier `txt`, which is put into the table if it
    /// is new.
    pub fn get_or_insert(&mut self, txt: &[u8]) -> (res: Result<u32, Error>)
        ensures
            (final(self)@, result_view(res)) == intern(old(self)@, txt@),
            table_wf(old(self)@),
            table_wf(final(self)@),
    {
        proof {
            use_type_invariant(&*self);
        }
        let ghost table = self.known.deep_view();
        let n = self.known.len();
        let mut i: usize = 0;
        while i < n
            invariant
                n == self.known@.len(),
                i <= n,
                table == self.known.deep_view(),
                table == old(self)@,
                table_wf(table),
                forall|j: int| 0 <= j < i ==> table[j] != txt@,
            decreases n - i,
        {
            if bytes_eq(self.known[i].as_ref(), txt) {
                proof {
                    table.index_of_first_ensures(txt@);
                    assert(table[i as int] == txt@);
                    assert(table.contains(txt@));
                }
                return Ok((i + 1) as u32);
            }
            i = i + 1;
        }
        proof {
            table.index_of_first_ensures(txt@);
            assert(!table.contains(txt@));
        }
        match Guid::try_from(txt) {
            Err(error) => Err(error),
            Ok(guid) => {
                if n >= u32::MAX as usize {
                    Err(Error::CounterOverflow)
                } else {
                    let mut fresh = GuidMap::new();
                    std::mem::swap(self, &mut fresh);
                    let GuidMap { mut known } = fresh;
                    known.push(guid);
                    proof {
                        assert(known.deep_view() =~= table.push(txt@));
                        lemma_intern_stable(table, txt@, txt@);
                    }
                    *self = GuidMap { known };
                    Ok((n + 1) as u32)
                }
            },
        }
    }
}

impl Default for GuidMap {
    fn default() -> (map: Self)
        ensures
            map@ == Seq::<Seq<u8>>::empty(),
    {
        GuidMap::new()
    }
}

/// Numbers tell identifiers apart: two identifiers with one number in one
/// table are the same identifier.
pub proof fn lemma_interned_injective(table: Seq<Seq<u8>>, a: Seq<u8>, b: Seq<u8>)
    requires
        table.len() <= u32::MAX,
        interned(table, a) is Some,
        interned(table, a) == interned(table, b),
    ensures
        a == b,
{
    table.index_of_first_ensures(a);
    table.index_of_first_ensures(b);
}

/// Asking for an identifier leaves every known identifier its number, and
/// the number given is the one that the table has for the identifier from
/// then on.
pub proof fn lemma_intern_stable(table: Seq<Seq<u8>>, id: Seq<u8>, known: Seq<u8>)
    requires
        table_wf(table),
    ensures
        table_wf(intern(table, id).0),
        interned(table, known) is Some ==> interned(intern(table, id).0, known) == interned(
            table,
            known,
        ),
        intern(table, id).1 matches Ok(number) ==> interned(intern(table, id).0, id) == Some(number),
{
    let after = intern(table, id).0;
    table.index_of_first_ensures(id);
    table.index_of_first_ensures(known);
    after.index_of_first_ensures(id);
    after.index_of_first_ensures(known);
    if after != table {
        assert(after == table.push(id));
        assert(after[table.len() as int] == id);
        assert(after.contains(id));
        assert forall|i: int, j: int| 0 <= i < after.len() && 0 <= j < after.len() && i
            != j implies after[i] != after[j] by {
            if i == table.len() {
                assert(table.contains(after[j]));
            } else if j == table.len() {
                assert(table.contains(after[i]));
            }
        }
        if interned(table, known) is Some {
            let i = table.index_of_first(known).unwrap();
            assert(after[i] == known);
            assert(after.contains(known));
        }
    }
}

/// Within one pass two different identifiers never get one number, and an
/// identifier that comes again gets the number it got before: `later` is the
/// table at any time after `id` was asked for in `table`.
pub proof fn lemma_numbers_last(table: Seq<Seq<u8>>, id: Seq<u8>, later: Seq<Seq<u8>>, other: Seq<u8>)
    requires
        table_wf(table),
        table_wf(later),
        intern(table, id).1 is Ok,
        intern(table, id).0.len() <= later.len(),
        later.take(intern(table, id).0.len() as int) == intern(table, id).0,
    ensures
        intern(later, id).1 == intern(table, id).1,
        other != id && intern(later, other).1 is Ok ==> intern(later, other).1 != intern(table, id).1,
{
    let first = intern(table, id).0;
    lemma_intern_stable(table, id, id);
    first.index_of_first_ensures(id);
    later.index_of_first_ensures(id);
    later.index_of_first_ensures(other);
    let i = first.index_of_first(id).unwrap();
    assert(later[i] == first[i]);
    assert(later.contains(id));
    assert forall|j: int| 0 <= j < i implies later[j] != id by {
        assert(later[j] == first[j]);
    }
    assert(later.index_of_first(id) == Some(i));
    if other != id && intern(later, other).1 is Ok {
        if later.contains(other) {
        } else {
            assert(intern(later, other).1 == Ok::<u32, ErrorView>((later.len() + 1) as u32));
        }
    }
}

/// The digits of a number in base ten, as bytes of ASCII, without leading
/// zeros.
pub open spec fn decimal(n: nat) -> Seq<u8>
    decreases n,
{
    if n < 10 {
        seq![(ZERO + n) as u8]
    } else {
        decimal(n / 10).push((ZERO + n % 10) as u8)
    }
}

/// The text that stands for an identifier in the output: its number in base
/// ten between two pairs of `=`.
pub open spec fn interned_text(number: u32) -> Seq<u8> {
    seq![EQUALS, EQUALS] + decimal(number as nat) + seq![EQUALS, EQUALS]
}

/// The digits of a number in base ten.
pub fn decimal_digits(n: u32) -> (digits: Vec<u8>)
    ensures
        digits@ == decimal(n as nat),
{
    let mut reversed: Vec<u8> = Vec::new();
    let mut rest: u32 = n;
    let ghost mut tail: Seq<u8> = Seq::empty();
    let digit: u8 = ZERO + (rest % 10) as u8;
    reversed.push(digit);
    rest = rest / 10;
    proof {
        tail = seq![digit];
        assert(decimal(n as nat) =~= (if rest > 0 {
            decimal(rest as nat)
        } else {
            Seq::<u8>::empty()
        }) + tail);
    }
    while rest > 0
        invariant
            reversed@.len() == tail.len(),
            forall|j: int| 0 <= j < tail.len() ==> reversed@[j] == tail[tail.len() - 1 - j],
            decimal(n as nat) == (if rest > 0 {
                decimal(rest as nat)
            } else {
                Seq::<u8>::empty()
            }) + tail,
        decreases rest,
    {
        let digit: u8 = ZERO + (rest % 10) as u8;
        let ghost before = rest;
        reversed.push(digit);
        rest = rest / 10;
        proof {
            let longer = seq![digit] + tail;
            assert(decimal(before as nat) =~= (if rest > 0 {
                decimal(rest as nat)
            } else {
                Seq::<u8>::empty()
            }) + seq![digit]);
            assert(decimal(n as nat) =~= (if rest > 0 {
                decimal(rest as nat)
            } else {
                Seq::<u8>::empty()
            }) + longer);
            tail = longer;
        }
    }
    let len = reversed.len();
    let mut digits: Vec<u8> = Vec::new();
    let mut left: usize = len;
    while left > 0
        invariant
            len == reversed@.len(),
            len == tail.len(),
            left <= len,
            digits@.len() == len - left,
            forall|j: int| 0 <= j < tail.len() ==> reversed@[j] == tail[tail.len() - 1 - j],
            forall|j: int| 0 <= j < digits@.len() ==> digits@[j] == tail[j],
        decreases left,
    {
        left = left - 1;
        digits.push(reversed[left]);
    }
    proof {
        assert(digits@ =~= tail);
    }
    digits
}

/// What the interning visitor does with one event, given the table it
/// holds: the text of an `Id`, `From` or `To` element is an identifier and is
/// replaced by the text that stands for its number; every other event is
/// handed on as it came.
pub open spec fn intern_step(table: Seq<Seq<u8>>, event: EventView, current: CurrentTag) -> (
    Seq<Seq<u8>>,
    Result<VisitProcessingView, ErrorView>,
) {
    if event is Text && (current == CurrentTag::From || current == CurrentTag::To || current
        == CurrentTag::Id) {
        let (after, number) = intern(table, event->Text_0);
        match number {
            Ok(n) => (after, Ok(VisitProcessingView::Continue(EventView::Text(interned_text(n))))),
            Err(error) => (after, Err(error)),
        }
    } else {
        (table, Ok(VisitProcessingView::Continue(event)))
    }
}

/// Replaces the identifiers of a document by small numbers, in the order in
/// which it first meets them.
pub struct GuidVisitor {
    map: GuidMap,
}

impl View for GuidVisitor {
    type V = Seq<Seq<u8>>;

    closed spec fn view(&self) -> Seq<Seq<u8>> {
        self.map@
    }
}

impl GuidVisitor {
    /// A visitor that has met no identifier.
    pub fn new() -> (visitor: Self)
        ensures
            visitor@ == Seq::<Seq<u8>>::empty(),
    {
        GuidVisitor { map: GuidMap::new() }
    }
}

impl XmlNodeVisitor for GuidVisitor {
    fn visit(&mut self, event: Event, current: CurrentTag) -> (res: VisitResult)
        ensures
            (final(self)@, visit_view(res)) == intern_step(old(self)@, event@, current),
            table_wf(final(self)@),
    {
        let identifier = current == CurrentTag::From || current == CurrentTag::To || current
            == CurrentTag::Id;
        self.map.check();
        if !identifier {
            return Ok(VisitProcessing::Continue(event));
        }
        match event {
            Event::Text(txt) => {
                match self.map.get_or_insert(txt.as_slice()) {
                    Ok(number) => {
                        let mut text: Vec<u8> = Vec::new();
                        text.push(EQUALS);
                        text.push(EQUALS);
                        let mut digits = decimal_digits(number);
                        text.append(&mut digits);
                        text.push(EQUALS);
                        text.push(EQUALS);
                        assert(text@ =~= interned_text(number));
                        Ok(VisitProcessing::Continue(Event::Text(text)))
                    },
                    Err(error) => Err(error),
                }
            },
            other => Ok(VisitProcessing::Continue(other)),
        }
    }
}

} // verus!
