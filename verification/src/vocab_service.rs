use vstd::prelude::*;

use crate::card_template::ExampleSentence;
use crate::card_template::VocabularyCard;
use crate::text::find_first;
use crate::text::find_from;
use crate::text::lemma_lex_lt_total;
use crate::text::lemma_lex_lt_trans;
use crate::text::lex_lt;
use crate::text::str_lt;
use crate::translate::spec_fallback_translations;
use crate::translate::spec_join_comma;
use crate::translate::translated_synonyms_field;
use crate::translate::url_encode;
use crate::translate::url_encoded_of;

verus! {

/// One phonetic entry of a dictionary response.
pub struct Phonetic {
    pub text: Option<String>,
}

/// One definition of a word sense: its text, an optional example sentence,
/// and the synonyms attached to this definition.
pub struct Definition {
    pub definition: String,
    pub example: Option<String>,
    pub synonyms: Vec<String>,
}

/// One word sense: a part-of-speech grouping of definitions, with sense-level
/// synonyms.
pub struct Meaning {
    pub part_of_speech: Option<String>,
    pub definitions: Vec<Definition>,
    pub synonyms: Vec<String>,
}

/// One dictionary entry for a term.
pub struct DictionaryEntry {
    pub phonetic: Option<String>,
    pub phonetics: Vec<Phonetic>,
    pub meanings: Vec<Meaning>,
}

/// The typed result of a dictionary lookup. Every field is independently
/// optional: a failed lookup degrades to the all-absent record.
pub struct DictionaryData {
    pub pronunciation: Option<String>,
    pub part_of_speech: Option<String>,
    pub definition: Option<String>,
    pub example: Option<String>,
    pub synonyms: Vec<String>,
}

impl Default for DictionaryData {
    /// The all-absent record that a failed dictionary fetch degrades to.
    fn default() -> (r: Self)
        ensures
            r.pronunciation is None,
            r.part_of_speech is None,
            r.definition is None,
            r.example is None,
            r.synonyms@.len() == 0,
    {
        DictionaryData {
            pronunciation: None,
            part_of_speech: None,
            definition: None,
            example: None,
            synonyms: Vec::new(),
        }
    }
}

/// A synonym set is kept strictly sorted in the lexicographic code-point
/// order, which also makes it free of duplicates.
pub open spec fn strictly_sorted(v: Seq<Seq<char>>) -> bool {
    forall|i: int, j: int| 0 <= i < j < v.len() ==> lex_lt(v[i], v[j])
}

/// A strictly sorted set is free of duplicates: any two entries differ.
pub proof fn lemma_strictly_sorted_distinct(v: Seq<Seq<char>>)
    requires
        strictly_sorted(v),
    ensures
        forall|i: int, j: int| 0 <= i < j < v.len() ==> v[i] != v[j],
{
    assert forall|i: int, j: int| 0 <= i < j < v.len() implies v[i] != v[j] by {
        crate::text::lemma_lex_lt_irrefl(v[i]);
    }
}

/// Inserts a non-empty synonym into a sorted set, keeping order and
/// discarding a duplicate.
fn insert_synonym(out: &mut Vec<String>, s: String)
    requires
        strictly_sorted(old(out).deep_view()),
        s@.len() > 0,
    ensures
        strictly_sorted(final(out).deep_view()),
        forall|x: Seq<char>|
            #[trigger] final(out).deep_view().contains(x) <==> (old(out).deep_view().contains(x)
                || x == s@),
{
    let mut lo: usize = 0;
    while lo < out.len() && str_lt(out[lo].as_str(), s.as_str())
        invariant
            lo <= out.len(),
            *out == *old(out),
            strictly_sorted(out.deep_view()),
            forall|j: int| 0 <= j < lo ==> lex_lt(out.deep_view()[j], s@),
        decreases out.len() - lo,
    {
        lo = lo + 1;
    }
    if lo < out.len() && out[lo] == s {
        proof {
            assert(out.deep_view()[lo as int] == out@[lo as int]@);
            assert(out.deep_view().contains(s@));
        }
        return;
    }
    proof {
        let od = old(out).deep_view();
        if lo < out.len() {
            lemma_lex_lt_total(od[lo as int], s@);
            assert(lex_lt(s@, od[lo as int]));
        }
        assert forall|j: int| lo <= j < od.len() implies lex_lt(s@, od[j]) by {
            if j > lo {
                lemma_lex_lt_trans(s@, od[lo as int], od[j]);
            }
        }
    }
    out.insert(lo, s);
    proof {
        let od = old(out).deep_view();
        let nd = out.deep_view();
        let pos = lo as int;
        assert(out@ == old(out)@.insert(pos, s));
        old(out)@.insert_ensures(pos, s);
        assert(nd.len() == od.len() + 1);
        assert forall|i: int| 0 <= i < nd.len() implies nd[i] == (if i < pos {
            od[i]
        } else if i == pos {
            s@
        } else {
            od[i - 1]
        }) by {
            assert(nd[i] == out@[i]@);
        }
        assert forall|i: int, j: int| 0 <= i < j < nd.len() implies lex_lt(nd[i], nd[j]) by {}
        assert forall|x: Seq<char>| #[trigger] nd.contains(x) implies (od.contains(x) || x == s@) by {
            let w = choose|w: int| 0 <= w < nd.len() && nd[w] == x;
            if w < pos {
                assert(od[w] == x);
            } else if w > pos {
                assert(od[w - 1] == x);
            }
        }
        assert forall|x: Seq<char>| (od.contains(x) || x == s@) implies #[trigger] nd.contains(x) by {
            if od.contains(x) {
                let w = choose|w: int| 0 <= w < od.len() && od[w] == x;
                if w < pos {
                    assert(nd[w] == x);
                } else {
                    assert(nd[w + 1] == x);
                }
            } else {
                assert(nd[pos] == x);
            }
        }
    }
}

/// Inserts every non-empty string of `items` into the sorted set `out`.
fn insert_all(out: &mut Vec<String>, items: &Vec<String>)
    requires
        strictly_sorted(old(out).deep_view()),
    ensures
        strictly_sorted(final(out).deep_view()),
        forall|x: Seq<char>|
            #[trigger] final(out).deep_view().contains(x) <==> (old(out).deep_view().contains(x)
                || (x.len() > 0 && items.deep_view().contains(x))),
{
    let mut i: usize = 0;
    while i < items.len()
        invariant
            i <= items.len(),
            strictly_sorted(out.deep_view()),
            forall|x: Seq<char>|
                #[trigger] out.deep_view().contains(x) <==> (old(out).deep_view().contains(x) || (
                x.len() > 0 && exists|j: int|
                    0 <= j < i && items.deep_view()[j] == x)),
        decreases items.len() - i,
    {
        let item = &items[i];
        if !item.as_str().is_empty() {
            insert_synonym(out, item.clone());
        }
        proof {
            assert forall|x: Seq<char>|
                #[trigger] out.deep_view().contains(x) <==> (old(out).deep_view().contains(x) || (
                x.len() > 0 && exists|j: int|
                    0 <= j < i + 1 && items.deep_view()[j] == x)) by {
                let iv = items.deep_view()[i as int];
                assert(iv == items@[i as int]@);
                if out.deep_view().contains(x) {
                } else {
                    if x.len() > 0 && exists|j: int| 0 <= j < i + 1 && items.deep_view()[j] == x {
                        let j = choose|j: int| 0 <= j < i + 1 && items.deep_view()[j] == x;
                        assert(j == i || (0 <= j < i && items.deep_view()[j] == x));
                    }
                }
            }
        }
        i = i + 1;
    }
    proof {
        assert forall|x: Seq<char>| items.deep_view().contains(x) implies exists|j: int|
            0 <= j < items@.len() && items.deep_view()[j] == x by {}
    }
}

/// The deduplicated, sorted union of the sense-level synonyms and the
/// synonyms attached to each definition, with empty strings dropped.
pub fn collect_synonyms(definitions: &Vec<Definition>, base_synonyms: Vec<String>) -> (r: Vec<String>)
    ensures
        strictly_sorted(r.deep_view()),
        forall|x: Seq<char>|
            #[trigger] r.deep_view().contains(x) <==> (x.len() > 0 && (
            base_synonyms.deep_view().contains(x) || exists|d: int|
                0 <= d < definitions@.len()
                    && #[trigger] definitions@[d].synonyms.deep_view().contains(x))),
{
    let mut out: Vec<String> = Vec::new();
    insert_all(&mut out, &base_synonyms);
    let mut d: usize = 0;
    while d < definitions.len()
        invariant
            d <= definitions@.len(),
            strictly_sorted(out.deep_view()),
            forall|x: Seq<char>|
                #[trigger] out.deep_view().contains(x) <==> (x.len() > 0 && (
                base_synonyms.deep_view().contains(x) || exists|e: int|
                    0 <= e < d && #[trigger] definitions@[e].synonyms.deep_view().contains(x))),
        decreases definitions@.len() - d,
    {
        insert_all(&mut out, &definitions[d].synonyms);
        proof {
            assert forall|x: Seq<char>|
                #[trigger] out.deep_view().contains(x) <==> (x.len() > 0 && (
                base_synonyms.deep_view().contains(x) || exists|e: int|
                    0 <= e < d + 1
                        && #[trigger] definitions@[e].synonyms.deep_view().contains(x))) by {
                if !out.deep_view().contains(x) {
                    if x.len() > 0 && exists|e: int|
                        0 <= e < d + 1 && #[trigger] definitions@[e].synonyms.deep_view().contains(
                    x) {
                        let e = choose|e: int|
                            0 <= e < d + 1 && #[trigger] definitions@[e].synonyms.deep_view()
                                .contains(x);
                        assert(e == d || (0 <= e < d
                            && definitions@[e].synonyms.deep_view().contains(x)));
                    }
                }
            }
        }
        d = d + 1;
    }
    out
}

/// The deduplicated, sorted union of two synonym lists, with empty strings
/// dropped: the merge of the dictionary-derived and the service-provided
/// synonyms.
pub fn merge_synonym_lists(a: &Vec<String>, b: &Vec<String>) -> (r: Vec<String>)
    ensures
        strictly_sorted(r.deep_view()),
        forall|x: Seq<char>|
            #[trigger] r.deep_view().contains(x) <==> (x.len() > 0 && (a.deep_view().contains(x)
                || b.deep_view().contains(x))),
{
    let mut out: Vec<String> = Vec::new();
    insert_all(&mut out, a);
    insert_all(&mut out, b);
    out
}

/// The synonym-service request address for a term: the fixed endpoint, asked
/// for at most 5 suggested synonyms of the URL-escaped term.
pub open spec fn spec_synonym_request_url(term: Seq<char>) -> Seq<char> {
    "https://api.datamuse.com/words?rel_syn="@ + url_encoded_of(term) + "&max=5"@
}

/// Builds the one request the synonym adapter sends for a term.
pub fn synonym_request_url(term: &str) -> (r: String)
    ensures
        r@ == spec_synonym_request_url(term@),
{
    let mut url = "https://api.datamuse.com/words?rel_syn=".to_owned();
    let encoded = url_encode(term);
    url.append(encoded.as_str());
    url.append("&max=5");
    url
}

/// Index of the first definition at or after `from` with non-empty text.
pub open spec fn first_nonempty_definition(ds: Seq<Definition>, from: int) -> Option<int>
    decreases ds.len() - from,
{
    if from < 0 || from >= ds.len() {
        None
    } else if ds[from].definition@.len() > 0 {
        Some(from)
    } else {
        first_nonempty_definition(ds, from + 1)
    }
}

/// Index of the first word sense at or after `from` that has at least one
/// definition with non-empty text, if any. A sense whose definitions all
/// carry empty text does not qualify.
pub open spec fn first_usable_meaning(ms: Seq<Meaning>, from: int) -> Option<int>
    decreases ms.len() - from,
{
    if from < 0 || from >= ms.len() {
        None
    } else if first_nonempty_definition(ms[from].definitions@, 0) is Some {
        Some(from)
    } else {
        first_usable_meaning(ms, from + 1)
    }
}

/// The selected sense qualifies — it holds a definition with non-empty text —
/// and no earlier sense does; where none is selected, no sense qualifies.
pub proof fn lemma_first_usable_meaning(ms: Seq<Meaning>, from: int)
    requires
        0 <= from,
    ensures
        match first_usable_meaning(ms, from) {
            Some(i) => {
                &&& from <= i < ms.len()
                &&& first_nonempty_definition(ms[i].definitions@, 0) is Some
                &&& forall|j: int|
                    from <= j < i ==> first_nonempty_definition(
                        #[trigger] ms[j].definitions@,
                        0,
                    ) is None
            },
            None => forall|j: int|
                from <= j < ms.len() ==> first_nonempty_definition(
                    #[trigger] ms[j].definitions@,
                    0,
                ) is None,
        },
    decreases ms.len() - from,
{
    if from >= ms.len() {
    } else if first_nonempty_definition(ms[from].definitions@, 0) is Some {
    } else {
        lemma_first_usable_meaning(ms, from + 1);
    }
}

/// Index of the first definition at or after `from` that carries an example.
pub open spec fn first_example(ds: Seq<Definition>, from: int) -> Option<int>
    decreases ds.len() - from,
{
    if from < 0 || from >= ds.len() {
        None
    } else if ds[from].example is Some {
        Some(from)
    } else {
        first_example(ds, from + 1)
    }
}

/// Index of the first phonetic entry at or after `from` that carries
/// non-empty text.
pub open spec fn first_phonetic_text(ps: Seq<Phonetic>, from: int) -> Option<int>
    decreases ps.len() - from,
{
    if from < 0 || from >= ps.len() {
        None
    } else if ps[from].text matches Some(t) && t@.len() > 0 {
        Some(from)
    } else {
        first_phonetic_text(ps, from + 1)
    }
}

/// The pronunciation of an entry: its explicit top-level phonetic string,
/// else the first phonetic entry with non-empty text, else absent.
pub open spec fn spec_pronunciation(e: DictionaryEntry) -> Option<String> {
    if e.phonetic is Some {
        e.phonetic
    } else {
        match first_phonetic_text(e.phonetics@, 0) {
            Some(i) => e.phonetics@[i].text,
            None => None,
        }
    }
}

/// The chosen definition text: the first non-empty one, if any.
pub open spec fn spec_first_definition(ds: Seq<Definition>) -> Option<String> {
    match first_nonempty_definition(ds, 0) {
        Some(i) => Some(ds[i].definition),
        None => None,
    }
}

/// The chosen example: the first definition's example, if any definition
/// carries one; selected independently of the chosen definition text.
pub open spec fn spec_first_example(ds: Seq<Definition>) -> Option<String> {
    match first_example(ds, 0) {
        Some(i) => ds[i].example,
        None => None,
    }
}

fn find_usable_meaning(meanings: &Vec<Meaning>) -> (r: Option<usize>)
    ensures
        match r {
            Some(i) => first_usable_meaning(meanings@, 0) == Some(i as int) && i < meanings@.len(),
            None => first_usable_meaning(meanings@, 0) is None,
        },
{
    let mut i: usize = 0;
    while i < meanings.len()
        invariant
            i <= meanings@.len(),
            first_usable_meaning(meanings@, 0) == first_usable_meaning(meanings@, i as int),
        decreases meanings@.len() - i,
    {
        if find_nonempty_definition(&meanings[i].definitions).is_some() {
            return Some(i);
        }
        i = i + 1;
    }
    None
}

fn find_nonempty_definition(ds: &Vec<Definition>) -> (r: Option<usize>)
    ensures
        match r {
            Some(i) => first_nonempty_definition(ds@, 0) == Some(i as int) && i < ds@.len(),
            None => first_nonempty_definition(ds@, 0) is None,
        },
{
    let mut i: usize = 0;
    while i < ds.len()
        invariant
            i <= ds@.len(),
            first_nonempty_definition(ds@, 0) == first_nonempty_definition(ds@, i as int),
        decreases ds@.len() - i,
    {
        if !ds[i].definition.as_str().is_empty() {
            return Some(i);
        }
        i = i + 1;
    }
    None
}

fn find_example(ds: &Vec<Definition>) -> (r: Option<usize>)
    ensures
        match r {
            Some(i) => first_example(ds@, 0) == Some(i as int) && i < ds@.len()
                && ds@[i as int].example is Some,
            None => first_example(ds@, 0) is None,
        },
{
    let mut i: usize = 0;
    while i < ds.len()
        invariant
            i <= ds@.len(),
            first_example(ds@, 0) == first_example(ds@, i as int),
        decreases ds@.len() - i,
    {
        if ds[i].example.is_some() {
            return Some(i);
        }
        i = i + 1;
    }
    None
}

fn find_phonetic_text(ps: &Vec<Phonetic>) -> (r: Option<usize>)
    ensures
        match r {
            Some(i) => first_phonetic_text(ps@, 0) == Some(i as int) && i < ps@.len()
                && ps@[i as int].text is Some,
            None => first_phonetic_text(ps@, 0) is None,
        },
{
    let mut i: usize = 0;
    while i < ps.len()
        invariant
            i <= ps@.len(),
            first_phonetic_text(ps@, 0) == first_phonetic_text(ps@, i as int),
        decreases ps@.len() - i,
    {
        match &ps[i].text {
            Some(t) => {
                if !t.as_str().is_empty() {
                    return Some(i);
                }
            },
            None => {},
        }
        i = i + 1;
    }
    None
}

/// Resolves the typed dictionary result from the service's entries: the first
/// entry's first word sense holding a definition with non-empty text supplies
/// the scalar fields and the synonym set. `None` — no entry, or no usable
/// sense — is the failure that the caller degrades to the all-absent record.
pub fn dictionary_from_entries(entries: &Vec<DictionaryEntry>) -> (r: Option<DictionaryData>)
    ensures
        r is Some <==> (entries@.len() > 0 && first_usable_meaning(entries@[0].meanings@, 0)
            is Some),
        r matches Some(d) ==> {
            let e = entries@[0];
            let mi = first_usable_meaning(e.meanings@, 0)->Some_0;
            let m = e.meanings@[mi];
            &&& d.pronunciation == spec_pronunciation(e)
            &&& d.part_of_speech == m.part_of_speech
            &&& d.definition == spec_first_definition(m.definitions@)
            &&& d.definition is Some
            &&& d.example == spec_first_example(m.definitions@)
            &&& strictly_sorted(d.synonyms.deep_view())
            &&& forall|x: Seq<char>|
                #[trigger] d.synonyms.deep_view().contains(x) <==> (x.len() > 0 && (
                m.synonyms.deep_view().contains(x) || exists|di: int|
                    0 <= di < m.definitions@.len()
                        && #[trigger] m.definitions@[di].synonyms.deep_view().contains(x)))
        },
{
    if entries.len() == 0 {
        return None;
    }
    let entry = &entries[0];
    let mi = match find_usable_meaning(&entry.meanings) {
        Some(mi) => mi,
        None => {
            return None;
        },
    };
    let meaning = &entry.meanings[mi];
    proof {
        lemma_first_usable_meaning(entry.meanings@, 0);
    }
    let pronunciation: Option<String> = match &entry.phonetic {
        Some(p) => Some(p.clone()),
        None => match find_phonetic_text(&entry.phonetics) {
            Some(pi) => match &entry.phonetics[pi].text {
                Some(t) => Some(t.clone()),
                None => None,
            },
            None => None,
        },
    };
    let definition: Option<String> = match find_nonempty_definition(&meaning.definitions) {
        Some(di) => Some(meaning.definitions[di].definition.clone()),
        None => None,
    };
    let example: Option<String> = match find_example(&meaning.definitions) {
        Some(di) => match &meaning.definitions[di].example {
            Some(x) => Some(x.clone()),
            None => None,
        },
        None => None,
    };
    let part_of_speech: Option<String> = match &meaning.part_of_speech {
        Some(p) => Some(p.clone()),
        None => None,
    };
    let synonyms = collect_synonyms(&meaning.definitions, meaning.synonyms.clone());
    Some(DictionaryData { pronunciation, part_of_speech, definition, example, synonyms })
}

/// The text of an optional field, defaulting to the empty string.
pub open spec fn spec_opt_text(o: Option<String>) -> Seq<char> {
    match o {
        Some(s) => s@,
        None => Seq::<char>::empty(),
    }
}

/// The sentence synthesized when the dictionary gave no definition.
pub open spec fn spec_default_definition(term: Seq<char>) -> Seq<char> {
    "No definition found for "@ + term + "."@
}

/// The definition text after fallback.
pub open spec fn spec_resolved_definition(term: Seq<char>, d: Option<Seq<char>>) -> Seq<char> {
    match d {
        Some(x) => x,
        None => spec_default_definition(term),
    }
}

/// The sentence synthesized when the dictionary gave no example.
pub open spec fn spec_default_example(term: Seq<char>) -> Seq<char> {
    "This sentence uses the word "@ + term + "."@
}

/// The example sentence after fallback.
pub open spec fn spec_resolved_example(term: Seq<char>, e: Option<Seq<char>>) -> Seq<char> {
    match e {
        Some(x) => x,
        None => spec_default_example(term),
    }
}

/// The highlight: the term itself when the (possibly synthesized) example
/// contains it as a substring, else empty.
pub open spec fn spec_highlight(example: Seq<char>, term: Seq<char>) -> Seq<char> {
    if find_from(example, term, 0) is Some {
        term
    } else {
        Seq::<char>::empty()
    }
}

/// A candidate highlight kept only when the sentence in fact contains it.
pub open spec fn spec_checked_highlight(sentence: Seq<char>, highlight: Seq<char>) -> Seq<char> {
    if find_from(sentence, highlight, 0) is Some {
        highlight
    } else {
        Seq::<char>::empty()
    }
}

/// A failed dictionary fetch degrades to the all-absent record, and resolving
/// that record yields empty part of speech and pronunciation and the two
/// synthesized sentences referencing the term.
pub proof fn lemma_failed_fetch_defaults(term: Seq<char>, d: DictionaryData)
    requires
        d.pronunciation is None,
        d.part_of_speech is None,
        d.definition is None,
        d.example is None,
    ensures
        spec_opt_text(d.part_of_speech) == Seq::<char>::empty(),
        spec_opt_text(d.pronunciation) == Seq::<char>::empty(),
        spec_resolved_definition(term, d.definition.deep_view()) == spec_default_definition(term),
        spec_resolved_example(term, d.example.deep_view()) == spec_default_example(term),
{
}

/// The merge of the dictionary record and the synonym-service result: the
/// sorted synonym union and every scalar field with its documented fallback.
pub struct MergedCard {
    pub synonyms: Vec<String>,
    pub part_of_speech: String,
    pub pronunciation: String,
    pub definition: String,
    pub example: String,
    pub highlight: String,
}

/// Applies the merge rules: union the synonyms, default the scalars, and set
/// the highlight only when the resolved example contains the term.
pub fn merge_card_fields(term: &str, dictionary: &DictionaryData, service_synonyms: &Vec<String>)
    -> (r: MergedCard)
    ensures
        strictly_sorted(r.synonyms.deep_view()),
        forall|x: Seq<char>|
            #[trigger] r.synonyms.deep_view().contains(x) <==> (x.len() > 0 && (
            dictionary.synonyms.deep_view().contains(x) || service_synonyms.deep_view().contains(
            x))),
        r.part_of_speech@ == spec_opt_text(dictionary.part_of_speech),
        r.pronunciation@ == spec_opt_text(dictionary.pronunciation),
        r.definition@ == spec_resolved_definition(term@, dictionary.definition.deep_view()),
        r.example@ == spec_resolved_example(term@, dictionary.example.deep_view()),
        r.highlight@ == spec_highlight(r.example@, term@),
{
    let synonyms = merge_synonym_lists(&dictionary.synonyms, service_synonyms);
    let part_of_speech = match &dictionary.part_of_speech {
        Some(p) => p.clone(),
        None => String::new(),
    };
    let pronunciation = match &dictionary.pronunciation {
        Some(p) => p.clone(),
        None => String::new(),
    };
    let definition = match &dictionary.definition {
        Some(d) => d.clone(),
        None => {
            let mut s = "No definition found for ".to_owned();
            s.append(term);
            s.append(".");
            s
        },
    };
    let example = match &dictionary.example {
        Some(e) => e.clone(),
        None => {
            let mut s = "This sentence uses the word ".to_owned();
            s.append(term);
            s.append(".");
            s
        },
    };
    let highlight = match find_first(example.as_str(), term) {
        Some(_) => term.to_owned(),
        None => String::new(),
    };
    MergedCard { synonyms, part_of_speech, pronunciation, definition, example, highlight }
}

/// The pure composition step: the final card record from the term, the merged
/// fields, the translated heading, the per-synonym translation results and
/// the usage translation result. Failed per-synonym and usage translations
/// fall back to the untranslated text; the tag list always carries the two
/// language codes and the auto-generated marker.
pub fn assemble_vocabulary_card(
    term: &str,
    source_lang: &str,
    target_lang: &str,
    merged: MergedCard,
    heading: String,
    synonym_translations: &Vec<Option<String>>,
    usage_translation: Option<String>,
) -> (r: VocabularyCard)
    requires
        synonym_translations@.len() == merged.synonyms@.len(),
    ensures
        r.term@ == term@,
        r.pronunciation@ == merged.pronunciation@,
        r.part_of_speech@ == merged.part_of_speech@,
        r.example.sentence@ == merged.example@,
        r.example.highlight@ == spec_checked_highlight(merged.example@, merged.highlight@),
        r.example.wf(),
        r.translation_heading@ == heading@,
        r.translation_synonyms@ == spec_join_comma(
            spec_fallback_translations(
                merged.synonyms.deep_view(),
                synonym_translations.deep_view(),
            ),
        ),
        r.translation_usage@ == (match usage_translation {
            Some(u) => u@,
            None => merged.definition@,
        }),
        r.extra_tags.deep_view() == seq![source_lang@, target_lang@, "auto-generated"@],
{
    let translation_synonyms = translated_synonyms_field(&merged.synonyms, synonym_translations);
    let translation_usage = match usage_translation {
        Some(u) => u,
        None => merged.definition.clone(),
    };
    let highlight = match find_first(merged.example.as_str(), merged.highlight.as_str()) {
        Some(_) => merged.highlight,
        None => String::new(),
    };
    let mut extra_tags: Vec<String> = Vec::new();
    extra_tags.push(source_lang.to_owned());
    extra_tags.push(target_lang.to_owned());
    extra_tags.push("auto-generated".to_owned());
    proof {
        assert(extra_tags.deep_view() =~= seq![source_lang@, target_lang@, "auto-generated"@]);
    }
    VocabularyCard {
        term: term.to_owned(),
        pronunciation: merged.pronunciation,
        part_of_speech: merged.part_of_speech,
        example: ExampleSentence { sentence: merged.example, highlight },
        translation_heading: heading,
        translation_synonyms,
        translation_usage,
        extra_tags,
    }
}

} // verus!
