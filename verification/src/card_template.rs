use vstd::prelude::*;

use crate::text::contains_at;
use crate::text::find_first;
use crate::text::find_from;
use crate::text::lemma_find_from_first;

verus! {

/// Rendered output of a card template: front markup, back markup, and the
/// ordered tag list handed to the flashcard sink.
pub struct CardFields {
    pub front: String,
    pub back: String,
    pub tags: Vec<String>,
}

/// Markup that opens the highlight span on the front face.
pub open spec fn highlight_open_tag() -> Seq<char> {
    "<span style=\"text-decoration:underline; color:red;\">"@
}

/// Markup that closes the highlight span.
pub open spec fn highlight_close_tag() -> Seq<char> {
    "</span>"@
}

/// An example sentence together with the substring of it that the front face
/// underlines. An empty highlight means "render the sentence unchanged".
#[derive(Default)]
pub struct ExampleSentence {
    pub sentence: String,
    pub highlight: String,
}

/// What rendering an example sentence yields: the sentence itself when the
/// highlight is empty or absent from it, else the sentence with its first
/// occurrence of the highlight wrapped in the highlight span.
pub open spec fn spec_render_example(sentence: Seq<char>, highlight: Seq<char>) -> Seq<char> {
    if highlight.len() == 0 {
        sentence
    } else {
        match find_from(sentence, highlight, 0) {
            Some(i) => sentence.subrange(0, i) + highlight_open_tag() + highlight
                + highlight_close_tag() + sentence.subrange(i + highlight.len() as int, sentence.len() as int),
            None => sentence,
        }
    }
}

/// A non-empty highlight that occurs in the sentence is wrapped exactly at its
/// first occurrence; everything before and after that occurrence is unchanged.
pub proof fn lemma_render_wraps_first_occurrence(sentence: Seq<char>, highlight: Seq<char>, i: int)
    requires
        highlight.len() > 0,
        contains_at(sentence, highlight, i),
        forall|j: int| 0 <= j < i ==> !contains_at(sentence, highlight, j),
    ensures
        spec_render_example(sentence, highlight) == sentence.subrange(0, i)
            + highlight_open_tag() + highlight + highlight_close_tag()
            + sentence.subrange(i + highlight.len() as int, sentence.len() as int),
{
    lemma_find_from_first(sentence, highlight, 0);
    let r = find_from(sentence, highlight, 0);
    match r {
        Some(m) => {
            if m < i {
                assert(contains_at(sentence, highlight, m));
            }
            if i < m {
                assert(!contains_at(sentence, highlight, i));
            }
            assert(m == i);
        },
        None => {
            assert(!contains_at(sentence, highlight, i));
        },
    }
}

/// A highlight absent from the sentence (or empty) leaves rendering the
/// identity on the sentence.
pub proof fn lemma_render_absent_highlight(sentence: Seq<char>, highlight: Seq<char>)
    requires
        forall|j: int| !contains_at(sentence, highlight, j) || highlight.len() == 0,
    ensures
        spec_render_example(sentence, highlight) == sentence,
{
    if highlight.len() > 0 {
        lemma_find_from_first(sentence, highlight, 0);
        if let Some(m) = find_from(sentence, highlight, 0) {
            assert(contains_at(sentence, highlight, m));
        }
    }
}

impl ExampleSentence {
    /// Well-formedness: the highlight is either empty or a literal substring
    /// of the sentence.
    pub open spec fn wf(self) -> bool {
        self.highlight@.len() == 0 || find_from(self.sentence@, self.highlight@, 0) is Some
    }

    /// Renders the sentence, underlining the first occurrence of the
    /// highlight if there is one.
    pub fn render(&self) -> (r: String)
        ensures
            r@ == spec_render_example(self.sentence@, self.highlight@),
    {
        if self.highlight.as_str().is_empty() {
            return self.sentence.clone();
        }
        match find_first(self.sentence.as_str(), self.highlight.as_str()) {
            None => self.sentence.clone(),
            Some(i) => {
                let s_len = self.sentence.as_str().unicode_len();
                let h_len = self.highlight.as_str().unicode_len();
                proof {
                    lemma_find_from_first(self.sentence@, self.highlight@, 0);
                }
                let mut out = self.sentence.as_str().substring_char(0, i).to_owned();
                out.append("<span style=\"text-decoration:underline; color:red;\">");
                out.append(self.highlight.as_str());
                out.append("</span>");
                out.append(self.sentence.as_str().substring_char(i + h_len, s_len));
                out
            },
        }
    }
}

/// Rendering capability of a card: every template yields front markup, back
/// markup and a tag list pinned by its `spec_fields`.
pub trait CardTemplate {
    /// The (front, back, tags) triple that rendering must produce.
    spec fn spec_fields(&self) -> (Seq<char>, Seq<char>, Seq<Seq<char>>);

    fn render(&self) -> (r: CardFields)
        ensures
            r.front@ == self.spec_fields().0,
            r.back@ == self.spec_fields().1,
            r.tags.deep_view() == self.spec_fields().2,
    ;
}

/// A fully assembled vocabulary card: the fetched-and-merged fields together
/// with the three translation outputs and the caller's extra tags.
pub struct VocabularyCard {
    pub term: String,
    pub pronunciation: String,
    pub part_of_speech: String,
    pub example: ExampleSentence,
    pub translation_heading: String,
    pub translation_synonyms: String,
    pub translation_usage: String,
    pub extra_tags: Vec<String>,
}

/// " · {part_of_speech}" when the part of speech is non-empty, else nothing.
pub open spec fn spec_part_display(pos: Seq<char>) -> Seq<char> {
    if pos.len() == 0 {
        Seq::<char>::empty()
    } else {
        " · "@ + pos
    }
}

/// The front face: bolded term, pronunciation line with optional part of
/// speech, and the highlighted example in italics.
pub open spec fn spec_vocab_front(c: VocabularyCard) -> Seq<char> {
    "<b style=\"font-size:1.4em;\">"@ + c.term@
        + "</b><br><span style=\"color:#888;\">"@ + c.pronunciation@
        + spec_part_display(c.part_of_speech@)
        + "</span><br><br><i>"@
        + spec_render_example(c.example.sentence@, c.example.highlight@)
        + "</i>"@
}

/// The back face: heading, synonyms and usage blocks with fixed styling.
pub open spec fn spec_vocab_back(c: VocabularyCard) -> Seq<char> {
    "<div style=\"margin-bottom:0.2em;\"><b style=\"font-size:1.2em;\">"@
        + c.translation_heading@
        + "</b></div><div style=\"margin-bottom:0.8em; color:#5e84c1;\">"@
        + c.translation_synonyms@
        + "</div><div style=\"margin-bottom:1em; font-size:0.95em; line-height:1.5em; color:#ccc;\">"@
        + c.translation_usage@
        + "</div>"@
}

/// The given tags with the empty ones dropped, in order.
pub open spec fn spec_nonempty_tags(tags: Seq<Seq<char>>) -> Seq<Seq<char>>
    decreases tags.len(),
{
    if tags.len() == 0 {
        Seq::<Seq<char>>::empty()
    } else {
        spec_nonempty_tags(tags.drop_last())
            + if tags.last().len() == 0 { Seq::<Seq<char>>::empty() } else { seq![tags.last()] }
    }
}

/// The tag list of a vocabulary card: the part of speech (when non-empty)
/// followed by the non-empty extra tags.
pub open spec fn spec_vocab_tags(c: VocabularyCard) -> Seq<Seq<char>> {
    (if c.part_of_speech@.len() == 0 { Seq::<Seq<char>>::empty() } else { seq![c.part_of_speech@] })
        + spec_nonempty_tags(c.extra_tags.deep_view())
}

impl CardTemplate for VocabularyCard {
    open spec fn spec_fields(&self) -> (Seq<char>, Seq<char>, Seq<Seq<char>>) {
        (spec_vocab_front(*self), spec_vocab_back(*self), spec_vocab_tags(*self))
    }

    fn render(&self) -> (r: CardFields) {
        let mut front = "<b style=\"font-size:1.4em;\">".to_owned();
        front.append(self.term.as_str());
        front.append("</b><br><span style=\"color:#888;\">");
        front.append(self.pronunciation.as_str());
        if !self.part_of_speech.as_str().is_empty() {
            front.append(" · ");
            front.append(self.part_of_speech.as_str());
        }
        front.append("</span><br><br><i>");
        let rendered_example = self.example.render();
        front.append(rendered_example.as_str());
        front.append("</i>");

        let mut back = "<div style=\"margin-bottom:0.2em;\"><b style=\"font-size:1.2em;\">".to_owned();
        back.append(self.translation_heading.as_str());
        back.append("</b></div><div style=\"margin-bottom:0.8em; color:#5e84c1;\">");
        back.append(self.translation_synonyms.as_str());
        back.append("</div><div style=\"margin-bottom:1em; font-size:0.95em; line-height:1.5em; color:#ccc;\">");
        back.append(self.translation_usage.as_str());
        back.append("</div>");

        let mut tags: Vec<String> = Vec::new();
        if !self.part_of_speech.as_str().is_empty() {
            tags.push(self.part_of_speech.clone());
        }
        let ghost base: Seq<Seq<char>> = tags.deep_view();
        let mut idx: usize = 0;
        while idx < self.extra_tags.len()
            invariant
                0 <= idx <= self.extra_tags.len(),
                tags.deep_view() == base + spec_nonempty_tags(self.extra_tags.deep_view().take(idx as int)),
            decreases self.extra_tags.len() - idx,
        {
            let ghost prefix = self.extra_tags.deep_view().take(idx as int);
            let ghost next = self.extra_tags.deep_view().take(idx as int + 1);
            proof {
                assert(next.drop_last() =~= prefix);
                assert(next.last() == self.extra_tags.deep_view()[idx as int]);
            }
            let t = &self.extra_tags[idx];
            let ghost pre = tags.deep_view();
            if !t.as_str().is_empty() {
                tags.push(t.clone());
                proof {
                    assert(tags.deep_view() =~= pre.push(t@));
                    assert(pre.push(t@) =~= base + spec_nonempty_tags(next));
                }
            } else {
                proof {
                    assert(spec_nonempty_tags(next) =~= spec_nonempty_tags(prefix));
                }
            }
            idx = idx + 1;
        }
        proof {
            assert(self.extra_tags.deep_view().take(self.extra_tags.len() as int)
                =~= self.extra_tags.deep_view());
            assert(front@ == spec_vocab_front(*self));
            assert(back@ == spec_vocab_back(*self));
            assert(tags.deep_view() == spec_vocab_tags(*self));
        }
        CardFields { front, back, tags }
    }
}

/// A minimal card whose front, back and tags the caller supplies directly.
pub struct SimpleCard {
    pub front: String,
    pub back: String,
    pub tags: Vec<String>,
}

impl CardTemplate for SimpleCard {
    open spec fn spec_fields(&self) -> (Seq<char>, Seq<char>, Seq<Seq<char>>) {
        (self.front@, self.back@, self.tags.deep_view())
    }

    fn render(&self) -> (r: CardFields) {
        CardFields {
            front: self.front.clone(),
            back: self.back.clone(),
            tags: self.tags.clone(),
        }
    }
}

} // verus!
