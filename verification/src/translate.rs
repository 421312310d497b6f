use vstd::prelude::*;

verus! {

/// What `str::trim` returns on the given characters.
pub uninterp spec fn trim_of(s: Seq<char>) -> Seq<char>;

/// Relies on str::trim: returns the input without its leading and trailing
/// whitespace; the result depends on the characters alone, and an empty
/// string stays empty.
#[verifier::external_body]
fn trim_whitespace(s: &str) -> (r: &str)
    ensures
        r@ == trim_of(s@),
        s@.len() == 0 ==> r@.len() == 0,
{
    s.trim()
}

/// A text is blank when trimming leaves nothing: empty or whitespace-only.
pub open spec fn is_blank(s: Seq<char>) -> bool {
    trim_of(s).len() == 0
}

/// What `urlencoding::encode` returns on the given characters.
pub uninterp spec fn url_encoded_of(s: Seq<char>) -> Seq<char>;

/// Relies on urlencoding::encode: percent-encodes every byte of the UTF-8
/// form except ASCII alphanumerics and `-`, `_`, `.`, `~`; the result depends
/// on the characters alone, and an empty string stays empty.
#[verifier::external_body]
pub(crate) fn url_encode(s: &str) -> (r: String)
    ensures
        r@ == url_encoded_of(s@),
        s@.len() == 0 ==> r@.len() == 0,
{
    urlencoding::encode(s).into_owned()
}

/// The fixed public endpoint used when the caller supplies no override.
pub open spec fn default_translate_base() -> Seq<char> {
    "https://lingva.ml/api/v1"@
}

/// The given base with every trailing slash removed.
pub open spec fn spec_strip_trailing_slashes(s: Seq<char>) -> Seq<char>
    decreases s.len(),
{
    if s.len() > 0 && s.last() == '/' {
        spec_strip_trailing_slashes(s.drop_last())
    } else {
        s
    }
}

/// The request address for one translation call: the resolved base, then the
/// source and target language codes, then the URL-escaped text.
pub open spec fn spec_translation_url(
    text: Seq<char>,
    source_lang: Seq<char>,
    target_lang: Seq<char>,
    base_override: Option<Seq<char>>,
) -> Seq<char> {
    (match base_override {
        Some(b) => spec_strip_trailing_slashes(b),
        None => default_translate_base(),
    }) + "/"@ + source_lang + "/"@ + target_lang + "/"@ + url_encoded_of(text)
}

fn strip_trailing_slashes(s: &str) -> (r: &str)
    ensures
        r@ == spec_strip_trailing_slashes(s@),
{
    let len = s.unicode_len();
    let mut e = len;
    proof {
        assert(s@.take(len as int) =~= s@);
    }
    while e > 0 && s.get_char(e - 1) == '/'
        invariant
            e <= len,
            len == s@.len(),
            spec_strip_trailing_slashes(s@) == spec_strip_trailing_slashes(s@.take(e as int)),
        decreases e,
    {
        proof {
            let t = s@.take(e as int);
            assert(t.last() == s@[e - 1]);
            assert(t.drop_last() =~= s@.take(e - 1));
        }
        e = e - 1;
    }
    proof {
        let t = s@.take(e as int);
        if e > 0 {
            assert(t.last() == s@[e - 1]);
        }
        assert(spec_strip_trailing_slashes(t) == t);
    }
    s.substring_char(0, e)
}

/// Decides one translation call: a blank text short-circuits to "no request",
/// any other text is sent to the resolved endpoint address.
pub fn translation_request_url(
    text: &str,
    source_lang: &str,
    target_lang: &str,
    base_override: Option<&str>,
) -> (r: Option<String>)
    ensures
        r is None <==> is_blank(text@),
        r matches Some(u) ==> u@ == spec_translation_url(
            text@,
            source_lang@,
            target_lang@,
            match base_override {
                Some(b) => Some(b@),
                None => None,
            },
        ),
{
    let trimmed = trim_whitespace(text);
    if trimmed.is_empty() {
        return None;
    }
    let mut url: String = match base_override {
        Some(b) => strip_trailing_slashes(b).to_owned(),
        None => "https://lingva.ml/api/v1".to_owned(),
    };
    url.append("/");
    url.append(source_lang);
    url.append("/");
    url.append(target_lang);
    url.append("/");
    let encoded = url_encode(text);
    url.append(encoded.as_str());
    Some(url)
}

/// Each synonym's translation, falling back to the untranslated synonym where
/// its translation failed, in the same order as the input set.
pub open spec fn spec_fallback_translations(
    originals: Seq<Seq<char>>,
    results: Seq<Option<Seq<char>>>,
) -> Seq<Seq<char>> {
    Seq::new(originals.len(), |i: int| match results[i] {
        Some(t) => t,
        None => originals[i],
    })
}

/// The comma-and-space joined sequence of entries.
pub open spec fn spec_join_comma(items: Seq<Seq<char>>) -> Seq<char>
    decreases items.len(),
{
    if items.len() == 0 {
        Seq::<char>::empty()
    } else if items.len() == 1 {
        items[0]
    } else {
        spec_join_comma(items.drop_last()) + ", "@ + items.last()
    }
}

/// Each translation slot falls back, position by position: the synonym's
/// translation where one came back, the synonym itself where the call
/// failed; there is exactly one entry per synonym.
pub proof fn lemma_fallback_translations_shape(
    originals: Seq<Seq<char>>,
    results: Seq<Option<Seq<char>>>,
)
    requires
        results.len() == originals.len(),
    ensures
        spec_fallback_translations(originals, results).len() == originals.len(),
        forall|i: int|
            0 <= i < originals.len() ==> #[trigger] spec_fallback_translations(originals, results)[i]
                == (match results[i] {
                Some(t) => t,
                None => originals[i],
            }),
{
}

/// Number of occurrences of `c` in `s`.
pub open spec fn count_char(s: Seq<char>, c: char) -> nat
    decreases s.len(),
{
    if s.len() == 0 {
        0
    } else {
        count_char(s.drop_last(), c) + (if s.last() == c {
            1nat
        } else {
            0nat
        })
    }
}

/// Counting distributes over concatenation.
pub proof fn lemma_count_char_add(a: Seq<char>, b: Seq<char>, c: char)
    ensures
        count_char(a + b, c) == count_char(a, c) + count_char(b, c),
    decreases b.len(),
{
    if b.len() == 0 {
        assert(a + b =~= a);
    } else {
        lemma_count_char_add(a, b.drop_last(), c);
        assert((a + b).drop_last() =~= a + b.drop_last());
        assert((a + b).last() == b.last());
    }
}

/// A non-empty set of comma-free entries joins into a string of exactly one
/// entry per synonym: its entries are separated by exactly `n - 1` commas.
pub proof fn lemma_join_comma_entry_count(items: Seq<Seq<char>>)
    requires
        items.len() > 0,
        forall|i: int| 0 <= i < items.len() ==> #[trigger] count_char(items[i], ',') == 0,
    ensures
        count_char(spec_join_comma(items), ',') == items.len() - 1,
    decreases items.len(),
{
    if items.len() == 1 {
    } else {
        let dl = items.drop_last();
        assert forall|i: int| 0 <= i < dl.len() implies #[trigger] count_char(dl[i], ',') == 0 by {
            assert(dl[i] == items[i]);
        }
        lemma_join_comma_entry_count(dl);
        lemma_count_char_add(spec_join_comma(dl), ", "@, ',');
        lemma_count_char_add(spec_join_comma(dl) + ", "@, items.last(), ',');
        assert(count_char(", "@, ',') == 1) by {
            reveal_strlit(", ");
            let sep = ", "@;
            assert(sep.len() == 2);
            assert(sep[0] == ',');
            assert(sep[1] == ' ');
            let d1 = sep.drop_last();
            assert(d1.len() == 1);
            assert(d1[0] == sep[0]);
            assert(d1.drop_last().len() == 0);
            assert(count_char(d1.drop_last(), ',') == 0);
            assert(d1.last() == ',');
            assert(count_char(d1, ',') == 1);
            assert(sep.last() == ' ');
        }
    }
}

/// The translated-synonyms field: one entry per synonym, each the synonym's
/// translation or, where that call failed, the synonym itself, joined with
/// ", " in the input order. An empty synonym set yields the empty string.
pub fn translated_synonyms_field(synonyms: &Vec<String>, translations: &Vec<Option<String>>) -> (r:
    String)
    requires
        translations@.len() == synonyms@.len(),
    ensures
        r@ == spec_join_comma(
            spec_fallback_translations(synonyms.deep_view(), translations.deep_view()),
        ),
        synonyms@.len() == 0 ==> r@ == Seq::<char>::empty(),
{
    let ghost chosen = spec_fallback_translations(synonyms.deep_view(), translations.deep_view());
    let mut out = String::new();
    let mut i: usize = 0;
    while i < synonyms.len()
        invariant
            i <= synonyms@.len(),
            translations@.len() == synonyms@.len(),
            chosen == spec_fallback_translations(synonyms.deep_view(), translations.deep_view()),
            chosen.len() == synonyms@.len(),
            out@ == spec_join_comma(chosen.take(i as int)),
        decreases synonyms@.len() - i,
    {
        if i > 0 {
            out.append(", ");
        }
        match &translations[i] {
            Some(t) => out.append(t.as_str()),
            None => out.append(synonyms[i].as_str()),
        }
        proof {
            let next = chosen.take(i + 1);
            assert(next.drop_last() =~= chosen.take(i as int));
            assert(next.last() == chosen[i as int]);
            assert(out@ == spec_join_comma(next));
        }
        i = i + 1;
    }
    proof {
        assert(chosen.take(synonyms@.len() as int) =~= chosen);
    }
    out
}

} // verus!
