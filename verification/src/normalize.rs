//! The normal form of instruction lines: words parted by one space, and the
//! symbol behind each address that has one.

use crate::error::ErrorView;
use crate::event::visit_view;
use crate::event::Event;
use crate::event::EventView;
use crate::event::VisitProcessing;
use crate::event::VisitProcessingView;
use crate::event::VisitResult;
use crate::event::XmlNodeVisitor;
use crate::io_names::symbol_of;
use crate::io_names::IoNames;
use crate::io_names::SymbolEntries;
use crate::tag::CurrentTag;
use crate::text::joined;
use crate::text::lemma_joined_push;
use crate::xml::SPACE;
use vstd::prelude::*;

verus! {

/// The byte of a horizontal tab.
pub const TAB: u8 = 0x09;

/// The byte of a line feed.
pub const LINE_FEED: u8 = 0x0a;

/// The byte of a form feed.
pub const FORM_FEED: u8 = 0x0c;

/// The byte of a carriage return.
pub const CARRIAGE_RETURN: u8 = 0x0d;

/// The byte `[`.
pub const OPEN_BRACKET: u8 = 0x5b;

/// The byte `]`.
pub const CLOSE_BRACKET: u8 = 0x5d;

/// Whether a byte is white space of ASCII: a space, a tab, a line feed, a
/// form feed or a carriage return.
pub open spec fn is_space(byte: u8) -> bool {
    byte == SPACE || byte == TAB || byte == LINE_FEED || byte == FORM_FEED || byte
        == CARRIAGE_RETURN
}

/// A text read from its start to its end: the words that have ended, and
/// the word that the end of the text stands in, empty where it stands in
/// none.
pub open spec fn scan(text: Seq<u8>) -> (Seq<Seq<u8>>, Seq<u8>)
    decreases text.len(),
{
    if text.len() == 0 {
        (Seq::empty(), Seq::empty())
    } else {
        let (ended, word) = scan(text.drop_last());
        if !is_space(text.last()) {
            (ended, word.push(text.last()))
        } else if word.len() > 0 {
            (ended.push(word), Seq::empty())
        } else {
            (ended, word)
        }
    }
}

/// The words of a text, in their order: the longest runs of bytes that are
/// not white space.
pub open spec fn words(text: Seq<u8>) -> Seq<Seq<u8>> {
    let (ended, word) = scan(text);
    if word.len() > 0 {
        ended.push(word)
    } else {
        ended
    }
}

/// A word as it is written out: the word, and behind a word that is an
/// address with a symbol a space and the symbol in square brackets.
pub open spec fn rendered(symbols: SymbolEntries, word: Seq<u8>) -> Seq<u8> {
    match symbol_of(symbols, word) {
        Some(symbol) => word + seq![SPACE, OPEN_BRACKET] + symbol + seq![CLOSE_BRACKET],
        None => word,
    }
}

/// A text in its normal form: its words as they are written out, with one
/// space between each two and none before the first or behind the last.
pub open spec fn normalized(symbols: SymbolEntries, text: Seq<u8>) -> Seq<u8> {
    joined(words(text).map_values(|word: Seq<u8>| rendered(symbols, word)), seq![SPACE])
}

/// No byte of the text is white space.
pub open spec fn no_space(text: Seq<u8>) -> bool {
    forall|j: int| 0 <= j < text.len() ==> !is_space(#[trigger] text[j])
}

/// What a text is read as: words that are not empty and hold no white space.
pub proof fn lemma_scan_gives_words(text: Seq<u8>)
    ensures
        no_space(scan(text).1),
        forall|i: int|
            0 <= i < scan(text).0.len() ==> (#[trigger] scan(text).0[i]).len() > 0 && no_space(
                scan(text).0[i],
            ),
    decreases text.len(),
{
    if text.len() > 0 {
        lemma_scan_gives_words(text.drop_last());
        let (ended, word) = scan(text.drop_last());
        if !is_space(text.last()) {
            assert(scan(text).1 == word.push(text.last()));
            assert forall|j: int| 0 <= j < scan(text).1.len() implies !is_space(
                #[trigger] scan(text).1[j],
            ) by {
                if j < word.len() {
                    assert(!is_space(word[j]));
                }
            }
        } else if word.len() > 0 {
            assert(scan(text).0 == ended.push(word));
            assert forall|i: int| 0 <= i < scan(text).0.len() implies (#[trigger] scan(
                text,
            ).0[i]).len() > 0 && no_space(scan(text).0[i]) by {
                if i < ended.len() {
                    assert(ended[i].len() > 0 && no_space(ended[i]));
                }
            }
        }
    }
}

/// No word of a text is empty and none holds white space.
pub proof fn lemma_words_hold_no_space(text: Seq<u8>)
    ensures
        forall|i: int|
            0 <= i < words(text).len() ==> (#[trigger] words(text)[i]).len() > 0 && no_space(
                words(text)[i],
            ),
{
    lemma_scan_gives_words(text);
    let (ended, word) = scan(text);
    assert forall|i: int| 0 <= i < words(text).len() implies (#[trigger] words(text)[i]).len() > 0
        && no_space(words(text)[i]) by {
        if i < ended.len() {
            assert(ended[i].len() > 0 && no_space(ended[i]));
        }
    }
}

/// A text without white space that is not empty is one word.
pub proof fn lemma_one_word(text: Seq<u8>)
    requires
        no_space(text),
    ensures
        scan(text) == (Seq::<Seq<u8>>::empty(), text),
        text.len() > 0 ==> words(text) == seq![text],
    decreases text.len(),
{
    if text.len() > 0 {
        assert(no_space(text.drop_last())) by {
            assert forall|j: int| 0 <= j < text.drop_last().len() implies !is_space(
                #[trigger] text.drop_last()[j],
            ) by {
                assert(text.drop_last()[j] == text[j]);
            }
        }
        lemma_one_word(text.drop_last());
        assert(!is_space(text.last())) by {
            assert(text.last() == text[text.len() - 1]);
        }
        assert(text.drop_last().push(text.last()) =~= text);
        assert(Seq::<Seq<u8>>::empty().push(text) =~= seq![text]);
    }
}

/// White space parts words: the words of two texts with a byte of white
/// space between them are the words of the first and then those of the
/// second.
pub proof fn lemma_words_part_at_space(first: Seq<u8>, space: u8, second: Seq<u8>)
    requires
        is_space(space),
    ensures
        scan(first + seq![space] + second).0 == words(first) + scan(second).0,
        scan(first + seq![space] + second).1 == scan(second).1,
        words(first + seq![space] + second) == words(first) + words(second),
    decreases second.len(),
{
    let whole = first + seq![space] + second;
    if second.len() == 0 {
        assert(whole.drop_last() =~= first);
        assert(whole.last() == space);
        assert(words(first) + scan(second).0 =~= words(first));
    } else {
        let shorter = second.drop_last();
        lemma_words_part_at_space(first, space, shorter);
        assert(whole.drop_last() =~= first + seq![space] + shorter);
        assert(whole.last() == second.last());
        let (ended, word) = scan(shorter);
        if is_space(second.last()) && word.len() > 0 {
            assert((words(first) + ended).push(word) =~= words(first) + ended.push(word));
        }
    }
    let (ended, word) = scan(second);
    if word.len() > 0 {
        assert((words(first) + ended).push(word) =~= words(first) + ended.push(word));
    }
}

/// Whether a byte is white space of ASCII.
pub fn is_ascii_space(byte: u8) -> (space: bool)
    ensures
        space == is_space(byte),
{
    byte == SPACE || byte == TAB || byte == LINE_FEED || byte == FORM_FEED || byte
        == CARRIAGE_RETURN
}

/// What the normalizer holds while it follows a document.
#[verifier::ext_equal]
pub struct NormalizeView {
    /// Whether the document is inside an instruction line.
    pub in_entity: bool,
    /// The text collected for the instruction line.
    pub text: Seq<u8>,
    /// The symbols that the normalizer looks addresses up in.
    pub symbols: SymbolEntries,
}

impl NormalizeView {
    /// The state after one more event, and what the visit answers.
    ///
    /// Outside an instruction line every event is handed on as it came. The
    /// opening tag of an instruction line is dropped, and so is everything
    /// inside the line; the texts inside are brought to normal form and
    /// collected, with a tab between each two that are not empty. The
    /// closing tag of the line is replaced by one text event that holds
    /// what was collected.
    pub open spec fn step(self, event: EventView, current: CurrentTag) -> (
        NormalizeView,
        Result<VisitProcessingView, ErrorView>,
    ) {
        if event is Start && current == CurrentTag::InstructionLineEntity {
            (NormalizeView { in_entity: true, ..self }, Ok(VisitProcessingView::NextNode))
        } else if !self.in_entity {
            (self, Ok(VisitProcessingView::Continue(event)))
        } else if event is End && current == CurrentTag::InstructionLineEntity {
            (
                NormalizeView { in_entity: false, text: Seq::empty(), ..self },
                Ok(VisitProcessingView::Continue(EventView::Text(self.text))),
            )
        } else if event is Text {
            let new = normalized(self.symbols, event->Text_0);
            let text = if self.text.len() > 0 && new.len() > 0 {
                self.text + seq![TAB] + new
            } else {
                self.text + new
            };
            (NormalizeView { text, ..self }, Ok(VisitProcessingView::NextNode))
        } else {
            (self, Ok(VisitProcessingView::NextNode))
        }
    }
}

/// Brings the text of instruction lines to a normal form and writes the
/// symbol behind each address that has one.
#[derive(Debug)]
pub struct NormalizeInstructionLine<'a> {
    in_entity: bool,
    text: Vec<u8>,
    names: &'a IoNames,
}

impl<'a> View for NormalizeInstructionLine<'a> {
    type V = NormalizeView;

    closed spec fn view(&self) -> NormalizeView {
        NormalizeView { in_entity: self.in_entity, text: self.text@, symbols: self.names@.names }
    }
}

impl<'a> NormalizeInstructionLine<'a> {
    /// A normalizer outside any instruction line.
    pub fn new(names: &'a IoNames) -> (normalizer: Self)
        ensures
            normalizer@ == (NormalizeView {
                in_entity: false,
                text: Seq::empty(),
                symbols: names@.names,
            }),
    {
        NormalizeInstructionLine { in_entity: false, text: Vec::new(), names }
    }

    /// Writes one word behind what was written before, with a space between
    /// the two unless the word is the first.
    fn write_word(&self, out: &mut Vec<u8>, word: &Vec<u8>, first: bool)
        ensures
            final(out)@ == old(out)@ + (if first {
                Seq::<u8>::empty()
            } else {
                seq![SPACE]
            }) + rendered(self@.symbols, word@),
    {
        if !first {
            out.push(SPACE);
        }
        out.extend_from_slice(word.as_slice());
        match self.names.get_symbol(word.as_slice()) {
            Some(symbol) => {
                out.push(SPACE);
                out.push(OPEN_BRACKET);
                out.extend_from_slice(symbol);
                out.push(CLOSE_BRACKET);
            },
            None => {},
        }
        proof {
            assert(out@ =~= old(out)@ + (if first {
                Seq::<u8>::empty()
            } else {
                seq![SPACE]
            }) + rendered(self@.symbols, word@));
        }
    }

    /// The normal form of a text.
    pub fn normalize_text(&self, txt: &[u8]) -> (new: Vec<u8>)
        ensures
            new@ == normalized(self@.symbols, txt@),
    {
        let ghost symbols = self@.symbols;
        let ghost render = |word: Seq<u8>| rendered(symbols, word);
        let mut new: Vec<u8> = Vec::new();
        let mut word: Vec<u8> = Vec::new();
        let mut first = true;
        let ghost mut ended: Seq<Seq<u8>> = Seq::empty();
        let n = txt.len();
        let mut i: usize = 0;
        proof {
            assert(txt@.take(0) =~= Seq::<u8>::empty());
            assert(ended.map_values(render) =~= Seq::<Seq<u8>>::empty());
        }
        while i < n
            invariant
                n == txt@.len(),
                i <= n,
                symbols == self@.symbols,
                render == |word: Seq<u8>| rendered(symbols, word),
                scan(txt@.take(i as int)) == (ended, word@),
                new@ == joined(ended.map_values(render), seq![SPACE]),
                first == (ended.len() == 0),
            decreases n - i,
        {
            let byte = txt[i];
            proof {
                assert(txt@.take(i + 1).drop_last() =~= txt@.take(i as int));
                assert(txt@.take(i + 1).last() == byte);
            }
            if !is_ascii_space(byte) {
                word.push(byte);
            } else if word.len() > 0 {
                self.write_word(&mut new, &word, first);
                proof {
                    lemma_joined_push(ended.map_values(render), render(word@), seq![SPACE]);
                    assert(ended.push(word@).map_values(render) =~= ended.map_values(render).push(
                        render(word@),
                    ));
                    ended = ended.push(word@);
                }
                first = false;
                word = Vec::new();
            }
            i = i + 1;
        }
        proof {
            assert(txt@.take(n as int) =~= txt@);
        }
        if word.len() > 0 {
            self.write_word(&mut new, &word, first);
            proof {
                lemma_joined_push(ended.map_values(render), render(word@), seq![SPACE]);
                assert(ended.push(word@).map_values(render) =~= ended.map_values(render).push(
                    render(word@),
                ));
            }
        }
        new
    }
}

impl<'a> XmlNodeVisitor for NormalizeInstructionLine<'a> {
    fn visit(&mut self, event: Event, current: CurrentTag) -> (res: VisitResult)
        ensures
            (final(self)@, visit_view(res)) == old(self)@.step(event@, current),
    {
        match &event {
            Event::Start(_) if current == CurrentTag::InstructionLineEntity => {
                self.in_entity = true;
            },
            _ if !self.in_entity => {
                return Ok(VisitProcessing::Continue(event));
            },
            Event::End(_) if current == CurrentTag::InstructionLineEntity => {
                self.in_entity = false;
                let mut text: Vec<u8> = Vec::new();
                std::mem::swap(&mut text, &mut self.text);
                return Ok(VisitProcessing::Continue(Event::Text(text)));
            },
            Event::Text(txt) => {
                let mut new = self.normalize_text(txt.as_slice());
                if !self.text.is_empty() && !new.is_empty() {
                    self.text.push(TAB);
                }
                self.text.append(&mut new);
            },
            _ => {},
        }
        Ok(VisitProcessing::NextNode)
    }
}

} // verus!
