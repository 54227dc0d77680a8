//! Translations: a translator per language with English as fallback, and
//! the loading of the embedded translation tables.
use vstd::prelude::*;
use serde_json::Value;

use super::{key_text, language_code, Language, LocalizationError, TranslationKey};
use crate::ordered_map::{
    get_key, index_of, insert_entry, kv_view, lemma_index_of, lemma_kv_view_insert,
    lemma_kv_view_lookup, lookup, put, OrderedMap,
};
use crate::text::{
    append_chars, append_str, chars_of, find, lemma_find_from_some, nat_decimal_exec, occurs_at,
    slice_chars, spec_find, nat_decimal, spec_trim_char, string_of, trim_char,
};

verus! {

// ---------------------------------------------------------------
// The translator
// ---------------------------------------------------------------

/// Translations for one language, with English as fallback.
#[derive(Debug)]
pub struct Translator {
    pub language: Language,
    pub translations: OrderedMap<String>,
    pub fallback_translations: OrderedMap<String>,
}

/// The text of key `k`: the translation, else the fallback, else `[k]`.
pub open spec fn translation_of(
    tr: Seq<(String, String)>,
    fb: Seq<(String, String)>,
    k: Seq<char>,
) -> Seq<char> {
    match lookup(tr, k) {
        Some(v) => v@,
        None => match lookup(fb, k) {
            Some(v) => v@,
            None => "["@ + k + "]"@,
        },
    }
}

/// `s` with each occurrence of the non-empty `p` replaced by `r`, scanning
/// left to right (`str::replace`).
pub open spec fn replace_all(s: Seq<char>, p: Seq<char>, r: Seq<char>) -> Seq<char>
    decreases s.len(),
{
    match spec_find(s, p) {
        Some(i) => if 0 <= i && p.len() > 0 && i + p.len() <= s.len() {
            s.subrange(0, i) + r + replace_all(s.subrange(i + p.len(), s.len() as int), p, r)
        } else {
            s
        },
        None => s,
    }
}

/// The placeholder `{i}`.
pub open spec fn placeholder(i: nat) -> Seq<char> {
    "{"@ + nat_decimal(i) + "}"@
}

/// `t` with the placeholders `{0}`, `{1}`, ... of the first `n` arguments filled in.
pub open spec fn fill_args(t: Seq<char>, args: Seq<Seq<char>>, n: nat) -> Seq<char>
    decreases n,
{
    if n == 0 {
        t
    } else {
        replace_all(fill_args(t, args, (n - 1) as nat), placeholder((n - 1) as nat), args[n - 1])
    }
}

/// Lexicographic order of character sequences (the order of `String`).
pub open spec fn seq_lt(a: Seq<char>, b: Seq<char>) -> bool
    decreases a.len(),
{
    if a.len() == 0 {
        b.len() > 0
    } else if b.len() == 0 {
        false
    } else if a[0] < b[0] {
        true
    } else if a[0] == b[0] {
        seq_lt(a.subrange(1, a.len() as int), b.subrange(1, b.len() as int))
    } else {
        false
    }
}

pub proof fn lemma_seq_lt_trichotomy(a: Seq<char>, b: Seq<char>)
    ensures
        a == b || seq_lt(a, b) || seq_lt(b, a),
        !(seq_lt(a, b) && seq_lt(b, a)),
        !seq_lt(a, a),
    decreases a.len(),
{
    if a.len() > 0 && b.len() > 0 {
        let a1 = a.subrange(1, a.len() as int);
        let b1 = b.subrange(1, b.len() as int);
        lemma_seq_lt_trichotomy(a1, b1);
        if a[0] == b[0] && a1 == b1 {
            assert forall|k: int| 0 <= k < a.len() implies a[k] == b[k] by {
                if k > 0 {
                    assert(a[k] == a1[k - 1]);
                    assert(b[k] == b1[k - 1]);
                }
            }
            assert(a =~= b);
        }
    } else if a.len() == 0 && b.len() == 0 {
        assert(a =~= b);
    }
    if a.len() > 0 {
        lemma_seq_lt_trichotomy(a.subrange(1, a.len() as int), a.subrange(1, a.len() as int));
    }
}

pub proof fn lemma_seq_lt_transitive(a: Seq<char>, b: Seq<char>, c: Seq<char>)
    requires
        seq_lt(a, b),
        seq_lt(b, c),
    ensures
        seq_lt(a, c),
    decreases a.len(),
{
    if a.len() > 0 && b.len() > 0 && c.len() > 0 {
        if a[0] == b[0] && b[0] == c[0] {
            lemma_seq_lt_transitive(
                a.subrange(1, a.len() as int),
                b.subrange(1, b.len() as int),
                c.subrange(1, c.len() as int),
            );
        }
    }
}

/// Strictly increasing, hence without repetition.
pub open spec fn strictly_sorted(s: Seq<String>) -> bool {
    forall|i: int, j: int| 0 <= i < j < s.len() ==> seq_lt(s[i]@, s[j]@)
}

/// Whether some string of `v` reads `k`.
pub open spec fn holds_text(v: Seq<String>, k: Seq<char>) -> bool {
    exists|i: int| 0 <= i < v.len() && v[i]@ == k
}

/// The keys of a table.
pub open spec fn key_set(s: Seq<(String, String)>) -> Set<Seq<char>> {
    Set::new(|k: Seq<char>| exists|i: int| 0 <= i < s.len() && s[i].0@ == k)
}

/// Whether `a < b` in the order of `String`.
pub fn str_lt(a: &str, b: &str) -> (r: bool)
    ensures
        r == seq_lt(a@, b@),
{
    let av = chars_of(a);
    let bv = chars_of(b);
    let mut i: usize = 0;
    assert(a@.subrange(0, a@.len() as int) =~= a@);
    assert(b@.subrange(0, b@.len() as int) =~= b@);
    while i < av.len() && i < bv.len() && av[i] == bv[i]
        invariant
            i <= av@.len(),
            i <= bv@.len(),
            av@ == a@,
            bv@ == b@,
            seq_lt(a@, b@) == seq_lt(
                a@.subrange(i as int, a@.len() as int),
                b@.subrange(i as int, b@.len() as int),
            ),
        decreases av@.len() - i,
    {
        let ghost x = a@.subrange(i as int, a@.len() as int);
        let ghost y = b@.subrange(i as int, b@.len() as int);
        assert(x.subrange(1, x.len() as int) =~= a@.subrange(i + 1, a@.len() as int));
        assert(y.subrange(1, y.len() as int) =~= b@.subrange(i + 1, b@.len() as int));
        i = i + 1;
    }
    if i == av.len() {
        i < bv.len()
    } else if i == bv.len() {
        false
    } else {
        av[i] < bv[i]
    }
}

/// Inserts `s` into the strictly sorted `v`, unless it is already there.
fn insert_sorted(v: &mut Vec<String>, s: String)
    requires
        strictly_sorted(old(v)@),
    ensures
        strictly_sorted(final(v)@),
        forall|k: Seq<char>| #[trigger]
            holds_text(final(v)@, k) <==> (k == s@ || holds_text(old(v)@, k)),
{
    let mut p: usize = 0;
    while p < v.len() && str_lt(v[p].as_str(), s.as_str())
        invariant
            p <= v@.len(),
            v@ == old(v)@,
            strictly_sorted(v@),
            forall|j: int| 0 <= j < p ==> seq_lt(#[trigger] v@[j]@, s@),
        decreases v@.len() - p,
    {
        p = p + 1;
    }
    if p < v.len() {
        proof {
            lemma_seq_lt_trichotomy(v@[p as int]@, s@);
        }
        let a = chars_of(v[p].as_str());
        let b = chars_of(s.as_str());
        if crate::text::chars_eq(a.as_slice(), b.as_slice()) {
            return;
        }
    }
    let ghost before = v@;
    v.insert(p, s);
    proof {
        assert forall|i: int, j: int| 0 <= i < j < v@.len() implies seq_lt(v@[i]@, v@[j]@) by {
            if j == p {
                assert(v@[i] == before[i]);
            } else if i == p {
                assert(v@[j] == before[j - 1]);
                assert(seq_lt(s@, before[p as int]@));
                if j - 1 > p {
                    lemma_seq_lt_transitive(s@, before[p as int]@, before[j - 1]@);
                }
            } else if i < p && j > p {
                assert(v@[i] == before[i]);
                assert(v@[j] == before[j - 1]);
            } else if i > p {
                assert(v@[i] == before[i - 1]);
                assert(v@[j] == before[j - 1]);
            } else {
                assert(v@[i] == before[i]);
                assert(v@[j] == before[j]);
            }
        }
        assert forall|k: Seq<char>| #[trigger]
            holds_text(v@, k) <==> (k == s@ || holds_text(before, k)) by {
            if exists|i: int| 0 <= i < v@.len() && v@[i]@ == k {
                let i = choose|i: int| 0 <= i < v@.len() && v@[i]@ == k;
                if i < p {
                    assert(before[i]@ == k);
                } else if i > p {
                    assert(before[i - 1]@ == k);
                }
            }
            if k == s@ {
                assert(v@[p as int]@ == k);
            }
            if exists|i: int| 0 <= i < before.len() && before[i]@ == k {
                let i = choose|i: int| 0 <= i < before.len() && before[i]@ == k;
                if i < p {
                    assert(v@[i]@ == k);
                } else {
                    assert(v@[i + 1]@ == k);
                }
            }
        }
    }
}

impl Translator {
    /// The translator for `language` from its loaded table and, for a
    /// language other than English, the loaded English table as fallback
    /// (English falls back to its own table). A failed load is the error.
    pub fn from_loaded(
        language: Language,
        own: Result<OrderedMap<String>, LocalizationError>,
        english: Option<Result<OrderedMap<String>, LocalizationError>>,
    ) -> (r: Result<Self, LocalizationError>)
        requires
            (language == Language::English) == (english is None),
        ensures
            match own {
                Err(e) => r == Err::<Self, LocalizationError>(e),
                Ok(t) => match english {
                    None => r matches Ok(x) && x.language == language && x.translations == t
                        && x.fallback_translations@ == t@,
                    Some(Err(e)) => r == Err::<Self, LocalizationError>(e),
                    Some(Ok(f)) => r matches Ok(x) && x.language == language && x.translations == t
                        && x.fallback_translations == f,
                },
            },
    {
        match own {
            Err(e) => Err(e),
            Ok(translations) => match english {
                None => {
                    let fallback_translations = clone_table(&translations);
                    Ok(Translator { language, translations, fallback_translations })
                },
                Some(Err(e)) => Err(e),
                Some(Ok(fallback_translations)) => {
                    Ok(Translator { language, translations, fallback_translations })
                },
            },
        }
    }

    /// Creates the translator for a language from the embedded tables, with
    /// English as fallback.
    pub fn new(language: Language) -> (r: Result<Self, LocalizationError>)
        ensures
            loaded_translator(r, language),
            r matches Ok(t) ==> (language == Language::English ==> t.fallback_translations@
                == t.translations@),
    {
        let own = load_language_translations(language);
        let english = if language != Language::English {
            Some(load_language_translations(Language::English))
        } else {
            None
        };
        Self::from_loaded(language, own, english)
    }

    /// The target language.
    pub fn language(&self) -> (r: Language)
        ensures
            r == self.language,
    {
        self.language
    }

    /// The text of a key: its translation, else its English text, else the key in brackets.
    pub fn translate(&self, key: &TranslationKey) -> (r: String)
        ensures
            r@ == translation_of(self.translations@, self.fallback_translations@, key_text(*key)),
    {
        let key_str = key.key();
        if let Some(t) = self.translations.get(key_str.as_str()) {
            return t.clone();
        }
        if let Some(f) = self.fallback_translations.get(key_str.as_str()) {
            return f.clone();
        }
        let mut out: Vec<char> = Vec::new();
        append_str(&mut out, "[");
        append_str(&mut out, key_str.as_str());
        append_str(&mut out, "]");
        string_of(out.as_slice())
    }

    /// The text of a key with `{0}`, `{1}`, ... replaced by the arguments.
    pub fn translate_with_args(&self, key: &TranslationKey, args: &[&str]) -> (r: String)
        ensures
            r@ == fill_args(
                translation_of(self.translations@, self.fallback_translations@, key_text(*key)),
                args@.map_values(|a: &str| a@),
                args@.len(),
            ),
    {
        let t = self.translate(key);
        let mut result = chars_of(t.as_str());
        let ghost base = t@;
        let ghost av = args@.map_values(|a: &str| a@);
        let mut i: usize = 0;
        while i < args.len()
            invariant
                i <= args@.len(),
                av == args@.map_values(|a: &str| a@),
                result@ == fill_args(base, av, i as nat),
            decreases args@.len() - i,
        {
            let mut pat: Vec<char> = Vec::new();
            append_str(&mut pat, "{");
            let d = nat_decimal_exec(i as u64);
            append_chars(&mut pat, d.as_slice());
            append_str(&mut pat, "}");
            assert(pat@ == placeholder(i as nat));
            let rep = chars_of(args[i]);
            assert(rep@ == av[i as int]);
            result = replace_all_exec(result.as_slice(), pat.as_slice(), rep.as_slice());
            i = i + 1;
        }
        string_of(result.as_slice())
    }

    /// Whether either table holds the key.
    pub fn has_translation(&self, key: &TranslationKey) -> (r: bool)
        ensures
            r == (index_of(self.translations@, key_text(*key)) is Some || index_of(
                self.fallback_translations@,
                key_text(*key),
            ) is Some),
    {
        let key_str = key.key();
        self.translations.contains_key(key_str.as_str())
            || self.fallback_translations.contains_key(key_str.as_str())
    }

    /// All keys of either table, sorted, each once.
    pub fn available_keys(&self) -> (r: Vec<String>)
        ensures
            strictly_sorted(r@),
            forall|k: Seq<char>| #[trigger]
                holds_text(r@, k) <==> (key_set(self.translations@).contains(k) || key_set(
                    self.fallback_translations@,
                ).contains(k)),
    {
        let mut keys: Vec<String> = Vec::new();
        let mut i: usize = 0;
        while i < self.translations.len()
            invariant
                i <= self.translations@.len(),
                strictly_sorted(keys@),
                forall|k: Seq<char>| #[trigger]
                    holds_text(keys@, k) <==> (exists|j: int|
                        0 <= j < i && self.translations@[j].0@ == k),
            decreases self.translations@.len() - i,
        {
            let k = self.translations.key_at(i).clone();
            insert_sorted(&mut keys, k);
            i = i + 1;
        }
        let mut j: usize = 0;
        while j < self.fallback_translations.len()
            invariant
                j <= self.fallback_translations@.len(),
                strictly_sorted(keys@),
                forall|k: Seq<char>| #[trigger]
                    holds_text(keys@, k) <==> (key_set(self.translations@).contains(k) || exists|
                        m: int,
                    |
                        0 <= m < j && self.fallback_translations@[m].0@ == k),
            decreases self.fallback_translations@.len() - j,
        {
            let k = self.fallback_translations.key_at(j).clone();
            insert_sorted(&mut keys, k);
            j = j + 1;
        }
        keys
    }
}

/// A copy of a table.
fn clone_table(m: &OrderedMap<String>) -> (r: OrderedMap<String>)
    ensures
        r@ == m@,
{
    let mut r: OrderedMap<String> = OrderedMap::new();
    let mut i: usize = 0;
    while i < m.len()
        invariant
            i <= m@.len(),
            r@ == m@.subrange(0, i as int),
        decreases m@.len() - i,
    {
        r.entries.push((m.key_at(i).clone(), m.value_at(i).clone()));
        i = i + 1;
        assert(r@ =~= m@.subrange(0, i as int));
    }
    assert(m@.subrange(0, m@.len() as int) =~= m@);
    r
}

/// `str::replace` with a non-empty pattern.
fn replace_all_exec(s: &[char], p: &[char], r: &[char]) -> (out: Vec<char>)
    requires
        p@.len() > 0,
    ensures
        out@ == replace_all(s@, p@, r@),
{
    let mut out: Vec<char> = Vec::new();
    let mut rest = slice_chars(s, 0, s.len());
    assert(rest@ =~= s@);
    assert(out@ + replace_all(rest@, p@, r@) =~= replace_all(s@, p@, r@));
    loop
        invariant
            p@.len() > 0,
            out@ + replace_all(rest@, p@, r@) == replace_all(s@, p@, r@),
        decreases rest@.len(),
    {
        match find(rest.as_slice(), p) {
            None => {
                append_chars(&mut out, rest.as_slice());
                return out;
            },
            Some(i) => {
                proof {
                    lemma_find_from_some(rest@, p@, 0);
                }
                assert(occurs_at(rest@, p@, i as int));
                let n = rest.len();
                assert(i + p@.len() <= n);
                let head = slice_chars(rest.as_slice(), 0, i);
                let tail = slice_chars(rest.as_slice(), i + p.len(), n);
                let ghost before = out@;
                append_chars(&mut out, head.as_slice());
                append_chars(&mut out, r);
                assert(out@ + replace_all(tail@, p@, r@) =~= before + replace_all(rest@, p@, r@));
                rest = tail;
            },
        }
    }
}

// ---------------------------------------------------------------
// Translation tables
// ---------------------------------------------------------------

/// A JSON value as far as translation tables use it.
#[derive(Debug)]
pub enum JsonValue {
    /// An object's entries, in order
    Object(Vec<(String, JsonValue)>),
    /// A string
    Str(String),
    /// Any other value, as JSON text
    Other(String),
}

/// The key under which a nested entry is stored: `prefix.key`, or `key` at the top.
pub open spec fn child_prefix(prefix: Seq<char>, key: Seq<char>) -> Seq<char> {
    if prefix.len() == 0 {
        key
    } else {
        prefix + "."@ + key
    }
}

/// The (key, text) pairs of a JSON value, keys in dot notation.
pub open spec fn flatten(v: JsonValue, prefix: Seq<char>) -> Seq<(Seq<char>, Seq<char>)>
    decreases v, 1int,
{
    match v {
        JsonValue::Object(es) => flatten_entries(es@, prefix),
        JsonValue::Str(s) => seq![(prefix, s@)],
        JsonValue::Other(t) => seq![(prefix, spec_trim_char(t@, '"'))],
    }
}

pub open spec fn flatten_entries(es: Seq<(String, JsonValue)>, prefix: Seq<char>) -> Seq<
    (Seq<char>, Seq<char>),
>
    decreases es, 0int,
{
    if es.len() == 0 {
        Seq::empty()
    } else {
        flatten_entries(es.subrange(0, es.len() - 1), prefix) + flatten(
            es[es.len() - 1].1,
            child_prefix(prefix, es[es.len() - 1].0@),
        )
    }
}

pub open spec fn pair_views(s: Seq<(String, String)>) -> Seq<(Seq<char>, Seq<char>)> {
    s.map_values(|e: (String, String)| (e.0@, e.1@))
}

/// The table after inserting the pairs in order (a later pair overrides an earlier one).
pub open spec fn insert_all(m: Seq<(String, String)>, pairs: Seq<(String, String)>) -> Seq<
    (String, String),
>
    decreases pairs.len(),
{
    if pairs.len() == 0 {
        m
    } else {
        let p = pairs.last();
        insert_entry(insert_all(m, pairs.drop_last()), p.0, p.1)
    }
}

/// Appends the dot-notation pairs of `value` to `out`.
pub fn flatten_json_object(value: &JsonValue, prefix: &[char], out: &mut Vec<(String, String)>)
    ensures
        pair_views(final(out)@) == pair_views(old(out)@) + flatten(*value, prefix@),
    decreases value,
{
    match value {
        JsonValue::Object(es) => {
            let mut i: usize = 0;
            assert(decreases_to!(*value => es@));
            while i < es.len()
                invariant
                    i <= es@.len(),
                    decreases_to!(*value => es@),
                    pair_views(out@) == pair_views(old(out)@) + flatten_entries(
                        es@.subrange(0, i as int),
                        prefix@,
                    ),
                decreases es@.len() - i,
            {
                let ghost sub = es@.subrange(0, i + 1);
                assert(sub.subrange(0, i as int) =~= es@.subrange(0, i as int));
                let key = &es[i].0;
                let mut np: Vec<char> = Vec::new();
                if prefix.len() == 0 {
                    append_str(&mut np, key.as_str());
                } else {
                    append_chars(&mut np, prefix);
                    append_str(&mut np, ".");
                    append_str(&mut np, key.as_str());
                }
                assert(np@ == child_prefix(prefix@, es@[i as int].0@));
                proof {
                    assert(decreases_to!(es@ => es@[i as int]));
                    assert(decreases_to!(es@[i as int] => es@[i as int].1));
                    assert(decreases_to!(*value => es@[i as int].1));
                }
                let ghost before = out@;
                flatten_json_object(&es[i].1, np.as_slice(), out);
                assert(pair_views(out@) =~= pair_views(old(out)@) + flatten_entries(sub, prefix@));
                i = i + 1;
            }
            assert(es@.subrange(0, es@.len() as int) =~= es@);
        },
        JsonValue::Str(s) => {
            let ghost before = out@;
            out.push((string_of(prefix), s.clone()));
            assert(pair_views(out@) =~= pair_views(before) + flatten(*value, prefix@));
        },
        JsonValue::Other(t) => {
            let tv = chars_of(t.as_str());
            let trimmed = trim_char(tv.as_slice(), '"');
            let ghost before = out@;
            out.push((string_of(prefix), string_of(trimmed.as_slice())));
            assert(pair_views(out@) =~= pair_views(before) + flatten(*value, prefix@));
        },
    }
}

/// The translation table of a JSON document: its dot-notation pairs, inserted in order.
pub fn translations_from_json(value: &JsonValue) -> (r: OrderedMap<String>)
    ensures
        exists|pairs: Seq<(String, String)>|
            pair_views(pairs) == flatten(*value, Seq::empty()) && r@ == insert_all(
                Seq::empty(),
                pairs,
            ),
{
    let mut pairs: Vec<(String, String)> = Vec::new();
    let empty: Vec<char> = Vec::new();
    flatten_json_object(value, empty.as_slice(), &mut pairs);
    assert(pair_views(pairs@) =~= flatten(*value, Seq::empty()));
    let mut m: OrderedMap<String> = OrderedMap::new();
    let mut i: usize = 0;
    while i < pairs.len()
        invariant
            i <= pairs@.len(),
            m@ == insert_all(Seq::empty(), pairs@.subrange(0, i as int)),
        decreases pairs@.len() - i,
    {
        assert(pairs@.subrange(0, i + 1).drop_last() =~= pairs@.subrange(0, i as int));
        let (k, v) = (pairs[i].0.clone(), pairs[i].1.clone());
        m.insert(k, v);
        i = i + 1;
    }
    assert(pairs@.subrange(0, pairs@.len() as int) =~= pairs@);
    m
}

/// What serde_json reports of the value at one place of a parsed JSON text.
#[derive(Debug)]
pub enum JsonFact {
    /// An object: its keys, in the order the parsed map gives them, and its
    /// JSON text
    Object(Vec<String>, String),
    /// A string
    Str(String),
    /// Any other value, as JSON text
    Other(String),
}

/// The content of a `JsonFact`.
pub enum JsonFactView {
    Object(Seq<Seq<char>>, Seq<char>),
    Str(Seq<char>),
    Other(Seq<char>),
}

impl View for JsonFact {
    type V = JsonFactView;

    open spec fn view(&self) -> JsonFactView {
        match self {
            JsonFact::Object(ks, t) => JsonFactView::Object(ks@.map_values(|k: String| k@), t@),
            JsonFact::Str(s) => JsonFactView::Str(s@),
            JsonFact::Other(t) => JsonFactView::Other(t@),
        }
    }
}

/// What serde_json reports of the value at JSON pointer `pointer` of the
/// document `text`; `None` where the text is not JSON or nothing is there.
pub uninterp spec fn json_node_at(text: Seq<char>, pointer: Seq<char>) -> Option<JsonFactView>;

/// Parses `text` with `serde_json::from_str` into a `Value`, looks up
/// `pointer` (`Value::pointer`) and reports the value there: an object's keys
/// (`as_object`, in the map's order) and JSON text (`Display`), a string
/// (`as_str`), or another value's JSON text. The result depends on the text
/// and the pointer alone, and is named `json_node_at`; nothing more is stated.
#[verifier::external_body]
fn json_fact_at(text: &str, pointer: &str) -> (r: Option<JsonFact>)
    ensures
        json_node_at(text@, pointer@) == (match r {
            Some(f) => Some(f@),
            None => None,
        }),
{
    let v: Value = serde_json::from_str(text).ok()?;
    let x = v.pointer(pointer)?;
    Some(match x {
        Value::Object(m) => JsonFact::Object(m.keys().cloned().collect(), x.to_string()),
        Value::String(s) => JsonFact::Str(s.clone()),
        _ => JsonFact::Other(x.to_string()),
    })
}

/// The message of the error `serde_json::from_str` gives for `text` as a
/// `Value` (its `Display` text); empty where it gives none. Nothing is
/// stated of it.
#[verifier::external_body]
fn json_parse_error(text: &str) -> (r: String) {
    match serde_json::from_str::<Value>(text) {
        Err(e) => e.to_string(),
        Ok(_) => String::new(),
    }
}

/// A JSON pointer token for an object key: `~` written `~0`, `/` written `~1`.
pub open spec fn pointer_token(k: Seq<char>) -> Seq<char>
    decreases k.len(),
{
    if k.len() == 0 {
        Seq::empty()
    } else {
        pointer_token(k.drop_last()) + if k.last() == '~' {
            seq!['~', '0']
        } else if k.last() == '/' {
            seq!['~', '1']
        } else {
            seq![k.last()]
        }
    }
}

/// The pointer of the entry `k` of the object at `ptr`.
pub open spec fn child_pointer(ptr: Seq<char>, k: Seq<char>) -> Seq<char> {
    ptr + seq!['/'] + pointer_token(k)
}

/// The content of a `JsonValue`.
pub enum JsonView {
    Object(Seq<(Seq<char>, JsonView)>),
    Str(Seq<char>),
    Other(Seq<char>),
}

pub open spec fn json_view(v: JsonValue) -> JsonView
    decreases v,
{
    match v {
        JsonValue::Object(es) => JsonView::Object(
            Seq::new(
                es@.len(),
                |i: int|
                    if 0 <= i < es@.len() {
                        proof {
                            assert(decreases_to!(v => es@));
                            assert(decreases_to!(es@ => es@[i]));
                            assert(decreases_to!(es@[i] => es@[i].1));
                        }
                        (es@[i].0@, json_view(es@[i].1))
                    } else {
                        (Seq::empty(), JsonView::Other(Seq::empty()))
                    },
            ),
        ),
        JsonValue::Str(s) => JsonView::Str(s@),
        JsonValue::Other(t) => JsonView::Other(t@),
    }
}

/// The value at pointer `ptr` of the JSON document `text`, reading objects
/// `fuel` levels down; an object deeper than that is kept as its JSON text.
pub open spec fn json_at(text: Seq<char>, ptr: Seq<char>, fuel: nat) -> Option<JsonView>
    decreases fuel, 0int, 0int,
{
    match json_node_at(text, ptr) {
        None => None,
        Some(JsonFactView::Str(s)) => Some(JsonView::Str(s)),
        Some(JsonFactView::Other(t)) => Some(JsonView::Other(t)),
        Some(JsonFactView::Object(keys, t)) => if fuel == 0 {
            Some(JsonView::Other(t))
        } else {
            match json_entries(text, ptr, keys, 0, (fuel - 1) as nat) {
                Some(es) => Some(JsonView::Object(es)),
                None => None,
            }
        },
    }
}

/// The entries of the object at `ptr` for the keys from the `k`-th on.
pub open spec fn json_entries(
    text: Seq<char>,
    ptr: Seq<char>,
    keys: Seq<Seq<char>>,
    k: nat,
    fuel: nat,
) -> Option<Seq<(Seq<char>, JsonView)>>
    decreases fuel, 1int, keys.len() - k,
{
    if k >= keys.len() {
        Some(Seq::empty())
    } else {
        match json_at(text, child_pointer(ptr, keys[k as int]), fuel) {
            Some(c) => match json_entries(text, ptr, keys, k + 1, fuel) {
                Some(rest) => Some(seq![(keys[k as int], c)] + rest),
                None => None,
            },
            None => None,
        }
    }
}

/// The JSON document `text`, read as deep as it has characters.
pub open spec fn json_document(text: Seq<char>) -> Option<JsonView> {
    json_at(text, Seq::empty(), text.len())
}

/// How deeply objects nest in a JSON value: zero for a string or other
/// value, one more than its deepest entry for an object.
pub open spec fn json_nesting(v: JsonValue) -> nat
    decreases v, 1int,
{
    match v {
        JsonValue::Object(es) => 1 + entries_nesting(es@),
        _ => 0,
    }
}

/// The deepest nesting among the values of a sequence of entries (zero for none).
pub open spec fn entries_nesting(es: Seq<(String, JsonValue)>) -> nat
    decreases es, 0int,
{
    if es.len() == 0 {
        0
    } else {
        let a = entries_nesting(es.subrange(0, es.len() - 1));
        let b = json_nesting(es[es.len() - 1].1);
        if a >= b {
            a
        } else {
            b
        }
    }
}

/// The pointer token of a key (`pointer_token`).
fn pointer_token_exec(k: &str) -> (r: Vec<char>)
    ensures
        r@ == pointer_token(k@),
{
    let v = chars_of(k);
    let mut out: Vec<char> = Vec::new();
    let mut i: usize = 0;
    while i < v.len()
        invariant
            i <= v@.len(),
            v@ == k@,
            out@ == pointer_token(v@.subrange(0, i as int)),
        decreases v@.len() - i,
    {
        assert(v@.subrange(0, i + 1).drop_last() =~= v@.subrange(0, i as int));
        let c = v[i];
        if c == '~' {
            out.push('~');
            out.push('0');
        } else if c == '/' {
            out.push('~');
            out.push('1');
        } else {
            out.push(c);
        }
        i = i + 1;
        assert(out@ =~= pointer_token(v@.subrange(0, i as int)));
    }
    assert(v@.subrange(0, v@.len() as int) =~= v@);
    out
}

proof fn lemma_json_view_object(es: Vec<(String, JsonValue)>)
    ensures
        json_view(JsonValue::Object(es)) == JsonView::Object(
            Seq::new(es@.len(), |i: int| (es@[i].0@, json_view(es@[i].1))),
        ),
{
    let want = Seq::new(es@.len(), |i: int| (es@[i].0@, json_view(es@[i].1)));
    match json_view(JsonValue::Object(es)) {
        JsonView::Object(x) => {
            assert(x =~= want);
        },
        _ => {},
    }
}

/// Reads the value at pointer `ptr` of the JSON document `text`, objects
/// `fuel` levels down (`json_at`).
fn json_value_of(text: &str, ptr: &Vec<char>, fuel: usize) -> (r: Option<JsonValue>)
    ensures
        match r {
            Some(v) => json_at(text@, ptr@, fuel as nat) == Some(json_view(v)) && json_nesting(v)
                <= fuel,
            None => json_at(text@, ptr@, fuel as nat) is None,
        },
    decreases fuel,
{
    let fact = match json_fact_at(text, string_of(ptr.as_slice()).as_str()) {
        Some(f) => f,
        None => return None,
    };
    match fact {
        JsonFact::Str(s) => Some(JsonValue::Str(s)),
        JsonFact::Other(t) => Some(JsonValue::Other(t)),
        JsonFact::Object(keys, t) => {
            if fuel == 0 {
                return Some(JsonValue::Other(t));
            }
            let ghost kv = keys@.map_values(|k: String| k@);
            let ghost total = json_entries(text@, ptr@, kv, 0, (fuel - 1) as nat);
            let mut out: Vec<(String, JsonValue)> = Vec::new();
            let mut i: usize = 0;
            while i < keys.len()
                invariant
                    i <= keys@.len(),
                    fuel > 0,
                    kv == keys@.map_values(|k: String| k@),
                    json_at(text@, ptr@, fuel as nat) == (match total {
                        Some(es) => Some(JsonView::Object(es)),
                        None => None,
                    }),
                    total == json_entries(text@, ptr@, kv, 0, (fuel - 1) as nat),
                    out@.len() == i,
                    total == match json_entries(text@, ptr@, kv, i as nat, (fuel - 1) as nat) {
                        Some(rest) => Some(
                            Seq::new(out@.len(), |j: int| (out@[j].0@, json_view(out@[j].1)))
                                + rest,
                        ),
                        None => None::<Seq<(Seq<char>, JsonView)>>,
                    },
                    entries_nesting(out@) <= fuel - 1,
                decreases keys@.len() - i,
            {
                let mut cp: Vec<char> = ptr.clone();
                cp.push('/');
                let tok = pointer_token_exec(keys[i].as_str());
                append_chars(&mut cp, tok.as_slice());
                assert(cp@ =~= child_pointer(ptr@, kv[i as int]));
                let child = match json_value_of(text, &cp, fuel - 1) {
                    Some(c) => c,
                    None => return None,
                };
                let ghost before = out@;
                let ghost cv = json_view(child);
                out.push((keys[i].clone(), child));
                proof {
                    assert(out@.subrange(0, out@.len() - 1) =~= before);
                    assert(Seq::new(before.len(), |j: int| (before[j].0@, json_view(before[j].1)))
                        + seq![(kv[i as int], cv)] =~= Seq::new(
                        out@.len(),
                        |j: int| (out@[j].0@, json_view(out@[j].1)),
                    ));
                    match json_entries(text@, ptr@, kv, (i + 1) as nat, (fuel - 1) as nat) {
                        Some(r2) => {
                            assert(Seq::new(before.len(), |j: int| (before[j].0@, json_view(before[j].1)))
                                + (seq![(kv[i as int], cv)] + r2) =~= Seq::new(
                                out@.len(),
                                |j: int| (out@[j].0@, json_view(out@[j].1)),
                            ) + r2);
                        },
                        None => {},
                    }
                }
                i = i + 1;
            }
            let ghost ov = out@;
            let r = JsonValue::Object(out);
            proof {
                lemma_json_view_object(out);
                assert(Seq::new(ov.len(), |j: int| (ov[j].0@, json_view(ov[j].1)))
                    + Seq::<(Seq<char>, JsonView)>::empty() =~= Seq::new(
                    ov.len(),
                    |j: int| (ov[j].0@, json_view(ov[j].1)),
                ));
                assert(json_nesting(r) == 1 + entries_nesting(ov));
            }
            Some(r)
        },
    }
}

/// The (key, text) pairs of a JSON document, keys in dot notation.
pub open spec fn pairs_of(d: JsonView, prefix: Seq<char>) -> Seq<(Seq<char>, Seq<char>)>
    decreases d, 1int,
{
    match d {
        JsonView::Object(es) => entry_pairs(es, prefix),
        JsonView::Str(s) => seq![(prefix, s)],
        JsonView::Other(t) => seq![(prefix, spec_trim_char(t, '"'))],
    }
}

pub open spec fn entry_pairs(es: Seq<(Seq<char>, JsonView)>, prefix: Seq<char>) -> Seq<
    (Seq<char>, Seq<char>),
>
    decreases es, 0int,
{
    if es.len() == 0 {
        Seq::empty()
    } else {
        entry_pairs(es.subrange(0, es.len() - 1), prefix) + pairs_of(
            es[es.len() - 1].1,
            child_prefix(prefix, es[es.len() - 1].0),
        )
    }
}

/// The entries after storing the pairs in order (a later pair overrides an
/// earlier one in place).
pub open spec fn put_all(m: Seq<(Seq<char>, Seq<char>)>, pairs: Seq<(Seq<char>, Seq<char>)>) -> Seq<
    (Seq<char>, Seq<char>),
>
    decreases pairs.len(),
{
    if pairs.len() == 0 {
        m
    } else {
        put(put_all(m, pairs.drop_last()), pairs.last().0, pairs.last().1)
    }
}

/// The translation table of a JSON document: its dot-notation pairs, stored
/// in order.
pub open spec fn translation_table(d: JsonView) -> Seq<(Seq<char>, Seq<char>)> {
    put_all(Seq::empty(), pairs_of(d, Seq::empty()))
}

/// The entries of an object, read through their views.
pub open spec fn entries_view(es: Seq<(String, JsonValue)>) -> Seq<(Seq<char>, JsonView)> {
    Seq::new(es.len(), |i: int| (es[i].0@, json_view(es[i].1)))
}

proof fn lemma_flatten_view(v: JsonValue, prefix: Seq<char>)
    ensures
        flatten(v, prefix) == pairs_of(json_view(v), prefix),
    decreases v, 1int,
{
    match v {
        JsonValue::Object(es) => {
            lemma_json_view_object(es);
            assert(entries_view(es@) =~= Seq::new(
                es@.len(),
                |i: int| (es@[i].0@, json_view(es@[i].1)),
            ));
            lemma_flatten_entries_view(es@, prefix);
        },
        _ => {},
    }
}

proof fn lemma_flatten_entries_view(es: Seq<(String, JsonValue)>, prefix: Seq<char>)
    ensures
        flatten_entries(es, prefix) == entry_pairs(entries_view(es), prefix),
    decreases es, 0int,
{
    if es.len() > 0 {
        let n = es.len() - 1;
        let s = es.subrange(0, n);
        lemma_flatten_entries_view(s, prefix);
        assert(entries_view(s) =~= entries_view(es).subrange(0, n));
        lemma_flatten_view(es[n].1, child_prefix(prefix, es[n].0@));
    }
}

proof fn lemma_insert_all_view(ps: Seq<(String, String)>)
    ensures
        kv_view(insert_all(Seq::empty(), ps)) == put_all(Seq::empty(), pair_views(ps)),
    decreases ps.len(),
{
    if ps.len() == 0 {
        let none: Seq<(String, String)> = Seq::empty();
        assert(kv_view(none) =~= Seq::empty());
    } else {
        let last = ps.last();
        let rest = ps.drop_last();
        lemma_insert_all_view(rest);
        lemma_kv_view_insert(insert_all(Seq::empty(), rest), last.0, last.1);
        assert(pair_views(ps).drop_last() =~= pair_views(rest));
    }
}

/// Parses a JSON translation document into its table: the table of the
/// document (`json_document`) where the text is JSON; `Err` carries the
/// parser's message otherwise.
pub fn parse_json_translations(json_content: &str) -> (r: Result<OrderedMap<String>, String>)
    ensures
        match json_document(json_content@) {
            Some(d) => r matches Ok(m) && kv_view(m@) == translation_table(d),
            None => r is Err,
        },
{
    let n = chars_of(json_content).len();
    let root: Vec<char> = Vec::new();
    match json_value_of(json_content, &root, n) {
        Some(jv) => {
            let m = translations_from_json(&jv);
            proof {
                let pairs = choose|pairs: Seq<(String, String)>|
                    pair_views(pairs) == flatten(jv, Seq::empty()) && m@ == insert_all(
                        Seq::empty(),
                        pairs,
                    );
                lemma_insert_all_view(pairs);
                lemma_flatten_view(jv, Seq::empty());
            }
            Ok(m)
        },
        None => Err(json_parse_error(json_content)),
    }
}

/// The embedded English translation document.
pub const ENGLISH_TRANSLATIONS: &'static str = r#"{
  "cli": {
    "app_description": "Documentation generator for Azure Bicep files",
    "app_about": "Parse Azure Bicep files and export documentation in a range of formats",
    "verbose_help": "Set the verbosity level of output (v: debug, vv: trace)",
    "quiet_help": "Don't show any logging output",
    "log_format_help": "Set the format for logging output",
    "log_file_help": "Path to a file to write logs to (instead of stdout/stderr)",
    "language_help": "Set the language for CLI messages and generated documentation",
    "markdown_command_desc": "Document Bicep file in Markdown format",
    "asciidoc_command_desc": "Document Bicep file in AsciiDoc format",
    "yaml_command_desc": "Document Bicep file in YAML format",
    "json_command_desc": "Document Bicep file in JSON format",
    "input_help": "Path to the Bicep file to parse",
    "output_help": "Output file path. Defaults to input filename with appropriate extension.",
    "emoji_help": "Enable emoji usage in documentation output",
    "exclude_empty_help": "Skip exporting empty sections in the documentation",
    "check_help": "Check if generated documentation matches existing file and exit with appropriate code",
    "pretty_help": "Format JSON with indentation for readability"
  },
  "export": {
    "bicep_template": "Bicep Template",
    "target_scope": "Target Scope",
    "additional_metadata": "Additional Metadata",
    "imports": "Imports",
    "types": "Types",
    "functions": "Functions",
    "parameters": "Parameters",
    "variables": "Variables",
    "resources": "Resources",
    "modules": "Modules",
    "outputs": "Outputs",
    "namespace_header": "Namespace",
    "version_header": "Version",
    "source_header": "Source",
    "symbols_header": "Symbols",
    "name_header": "Name",
    "type_header": "Type",
    "required_header": "Required",
    "default_header": "Default",
    "description_header": "Description",
    "no_imports_defined": "No imports defined",
    "no_types_defined": "No custom types defined",
    "no_functions_defined": "No functions defined",
    "no_parameters_defined": "No parameters defined",
    "no_variables_defined": "No variables defined",
    "no_resources_defined": "No resources defined",
    "no_modules_defined": "No modules defined",
    "no_outputs_defined": "No outputs defined",
    "minimum_value": "Minimum Value",
    "maximum_value": "Maximum Value",
    "minimum_length": "Minimum Length",
    "maximum_length": "Maximum Length",
    "allowed_values": "Allowed Values",
    "discriminator": "Discriminator",
    "sealed": "Sealed"
  },
  "common": {
    "yes": "Yes",
    "no": "No"
  },
  "error": {
    "file_not_found": "File not found",
    "parse_error": "Parse error",
    "export_error": "Export error",
    "invalid_language": "Invalid language"
  }
}"#;

/// The embedded Spanish translation document.
pub const SPANISH_TRANSLATIONS: &'static str = r#"{
  "cli": {
    "app_description": "Generador de documentación para archivos Azure Bicep",
    "app_about": "Analiza archivos Azure Bicep y exporta documentación en varios formatos",
    "verbose_help": "Establece el nivel de detalle de la salida (v: depuración, vv: traza)",
    "quiet_help": "No mostrar ninguna salida de registro",
    "log_format_help": "Establece el formato de la salida de registro",
    "log_file_help": "Ruta de un archivo donde escribir los registros",
    "language_help": "Establece el idioma de los mensajes y de la documentación generada",
    "markdown_command_desc": "Documentar el archivo Bicep en formato Markdown",
    "asciidoc_command_desc": "Documentar el archivo Bicep en formato AsciiDoc",
    "yaml_command_desc": "Documentar el archivo Bicep en formato YAML",
    "json_command_desc": "Documentar el archivo Bicep en formato JSON",
    "input_help": "Ruta del archivo Bicep a analizar",
    "output_help": "Ruta del archivo de salida",
    "emoji_help": "Usar emojis en la documentación generada",
    "exclude_empty_help": "Omitir las secciones vacías de la documentación",
    "check_help": "Comprobar si la documentación generada coincide con el archivo existente",
    "pretty_help": "Formatear el JSON con sangría"
  },
  "export": {
    "bicep_template": "Plantilla Bicep",
    "target_scope": "Ámbito de Destino",
    "additional_metadata": "Metadatos Adicionales",
    "imports": "Importaciones",
    "types": "Tipos",
    "functions": "Funciones",
    "parameters": "Parámetros",
    "variables": "Variables",
    "resources": "Recursos",
    "modules": "Módulos",
    "outputs": "Salidas",
    "namespace_header": "Espacio de nombres",
    "version_header": "Versión",
    "source_header": "Origen",
    "symbols_header": "Símbolos",
    "name_header": "Nombre",
    "type_header": "Tipo",
    "required_header": "Obligatorio",
    "default_header": "Predeterminado",
    "description_header": "Descripción",
    "no_imports_defined": "No hay importaciones definidas",
    "no_types_defined": "No hay tipos personalizados definidos",
    "no_functions_defined": "No hay funciones definidas",
    "no_parameters_defined": "No hay parámetros definidos",
    "no_variables_defined": "No hay variables definidas",
    "no_resources_defined": "No hay recursos definidos",
    "no_modules_defined": "No hay módulos definidos",
    "no_outputs_defined": "No hay salidas definidas",
    "minimum_value": "Valor Mínimo",
    "maximum_value": "Valor Máximo",
    "minimum_length": "Longitud Mínima",
    "maximum_length": "Longitud Máxima",
    "allowed_values": "Valores Permitidos",
    "discriminator": "Discriminador",
    "sealed": "Sellado"
  },
  "common": {
    "yes": "Sí",
    "no": "No"
  },
  "error": {
    "file_not_found": "Archivo no encontrado",
    "parse_error": "Error de análisis",
    "export_error": "Error de exportación",
    "invalid_language": "Idioma no válido"
  }
}"#;

/// The embedded French translation document.
pub const FRENCH_TRANSLATIONS: &'static str = r#"{
  "cli": {
    "app_description": "Générateur de documentation pour les fichiers Azure Bicep",
    "app_about": "Analyse les fichiers Azure Bicep et exporte la documentation dans plusieurs formats",
    "verbose_help": "Définit le niveau de détail de la sortie (v : débogage, vv : trace)",
    "quiet_help": "N'afficher aucune journalisation",
    "log_format_help": "Définit le format de la journalisation",
    "log_file_help": "Chemin d'un fichier où écrire les journaux",
    "language_help": "Définit la langue des messages et de la documentation générée",
    "markdown_command_desc": "Documenter le fichier Bicep au format Markdown",
    "asciidoc_command_desc": "Documenter le fichier Bicep au format AsciiDoc",
    "yaml_command_desc": "Documenter le fichier Bicep au format YAML",
    "json_command_desc": "Documenter le fichier Bicep au format JSON",
    "input_help": "Chemin du fichier Bicep à analyser",
    "output_help": "Chemin du fichier de sortie",
    "emoji_help": "Utiliser des emojis dans la documentation",
    "exclude_empty_help": "Ignorer les sections vides de la documentation",
    "check_help": "Vérifier si la documentation générée correspond au fichier existant",
    "pretty_help": "Formater le JSON avec indentation"
  },
  "export": {
    "bicep_template": "Modèle Bicep",
    "target_scope": "Portée Cible",
    "additional_metadata": "Métadonnées Supplémentaires",
    "imports": "Importations",
    "types": "Types",
    "functions": "Fonctions",
    "parameters": "Paramètres",
    "variables": "Variables",
    "resources": "Ressources",
    "modules": "Modules",
    "outputs": "Sorties",
    "namespace_header": "Espace de noms",
    "version_header": "Version",
    "source_header": "Source",
    "symbols_header": "Symboles",
    "name_header": "Nom",
    "type_header": "Type",
    "required_header": "Obligatoire",
    "default_header": "Par défaut",
    "description_header": "Description",
    "no_imports_defined": "Aucune importation définie",
    "no_types_defined": "Aucun type personnalisé défini",
    "no_functions_defined": "Aucune fonction définie",
    "no_parameters_defined": "Aucun paramètre défini",
    "no_variables_defined": "Aucune variable définie",
    "no_resources_defined": "Aucune ressource définie",
    "no_modules_defined": "Aucun module défini",
    "no_outputs_defined": "Aucune sortie définie",
    "minimum_value": "Valeur Minimale",
    "maximum_value": "Valeur Maximale",
    "minimum_length": "Longueur Minimale",
    "maximum_length": "Longueur Maximale",
    "allowed_values": "Valeurs Autorisées",
    "discriminator": "Discriminateur",
    "sealed": "Scellé"
  },
  "common": {
    "yes": "Oui",
    "no": "Non"
  },
  "error": {
    "file_not_found": "Fichier introuvable",
    "parse_error": "Erreur d'analyse",
    "export_error": "Erreur d'exportation",
    "invalid_language": "Langue non valide"
  }
}"#;

/// The embedded German translation document.
pub const GERMAN_TRANSLATIONS: &'static str = r#"{
  "cli": {
    "app_description": "Dokumentationsgenerator für Azure-Bicep-Dateien",
    "app_about": "Analysiert Azure-Bicep-Dateien und exportiert Dokumentation in mehreren Formaten",
    "verbose_help": "Ausführlichkeit der Ausgabe festlegen (v: Debug, vv: Trace)",
    "quiet_help": "Keine Protokollausgabe anzeigen",
    "log_format_help": "Format der Protokollausgabe festlegen",
    "log_file_help": "Pfad einer Datei für die Protokolle",
    "language_help": "Sprache der Meldungen und der erzeugten Dokumentation festlegen",
    "markdown_command_desc": "Bicep-Datei im Markdown-Format dokumentieren",
    "asciidoc_command_desc": "Bicep-Datei im AsciiDoc-Format dokumentieren",
    "yaml_command_desc": "Bicep-Datei im YAML-Format dokumentieren",
    "json_command_desc": "Bicep-Datei im JSON-Format dokumentieren",
    "input_help": "Pfad der zu analysierenden Bicep-Datei",
    "output_help": "Pfad der Ausgabedatei",
    "emoji_help": "Emojis in der Dokumentation verwenden",
    "exclude_empty_help": "Leere Abschnitte in der Dokumentation auslassen",
    "check_help": "Prüfen, ob die erzeugte Dokumentation der vorhandenen Datei entspricht",
    "pretty_help": "JSON mit Einrückung formatieren"
  },
  "export": {
    "bicep_template": "Bicep-Vorlage",
    "target_scope": "Zielbereich",
    "additional_metadata": "Zusätzliche Metadaten",
    "imports": "Importe",
    "types": "Typen",
    "functions": "Funktionen",
    "parameters": "Parameter",
    "variables": "Variablen",
    "resources": "Ressourcen",
    "modules": "Module",
    "outputs": "Ausgaben",
    "namespace_header": "Namensraum",
    "version_header": "Version",
    "source_header": "Quelle",
    "symbols_header": "Symbole",
    "name_header": "Name",
    "type_header": "Typ",
    "required_header": "Erforderlich",
    "default_header": "Standard",
    "description_header": "Beschreibung",
    "no_imports_defined": "Keine Importe definiert",
    "no_types_defined": "Keine benutzerdefinierten Typen definiert",
    "no_functions_defined": "Keine Funktionen definiert",
    "no_parameters_defined": "Keine Parameter definiert",
    "no_variables_defined": "Keine Variablen definiert",
    "no_resources_defined": "Keine Ressourcen definiert",
    "no_modules_defined": "Keine Module definiert",
    "no_outputs_defined": "Keine Ausgaben definiert",
    "minimum_value": "Minimalwert",
    "maximum_value": "Maximalwert",
    "minimum_length": "Minimale Länge",
    "maximum_length": "Maximale Länge",
    "allowed_values": "Erlaubte Werte",
    "discriminator": "Diskriminator",
    "sealed": "Versiegelt"
  },
  "common": {
    "yes": "Ja",
    "no": "Nein"
  },
  "error": {
    "file_not_found": "Datei nicht gefunden",
    "parse_error": "Analysefehler",
    "export_error": "Exportfehler",
    "invalid_language": "Ungültige Sprache"
  }
}"#;

/// The embedded Japanese translation document.
pub const JAPANESE_TRANSLATIONS: &'static str = r#"{
  "cli": {
    "app_description": "Azure Bicep ファイルのドキュメント生成ツール",
    "app_about": "Azure Bicep ファイルを解析し、さまざまな形式でドキュメントを出力します",
    "verbose_help": "出力の詳細レベルを設定します (v: デバッグ, vv: トレース)",
    "quiet_help": "ログ出力を表示しません",
    "log_format_help": "ログ出力の形式を設定します",
    "log_file_help": "ログを書き込むファイルのパス",
    "language_help": "メッセージと生成されるドキュメントの言語を設定します",
    "markdown_command_desc": "Bicep ファイルを Markdown 形式で文書化します",
    "asciidoc_command_desc": "Bicep ファイルを AsciiDoc 形式で文書化します",
    "yaml_command_desc": "Bicep ファイルを YAML 形式で文書化します",
    "json_command_desc": "Bicep ファイルを JSON 形式で文書化します",
    "input_help": "解析する Bicep ファイルのパス",
    "output_help": "出力ファイルのパス",
    "emoji_help": "ドキュメントで絵文字を使用します",
    "exclude_empty_help": "空のセクションを出力しません",
    "check_help": "生成したドキュメントが既存のファイルと一致するか確認します",
    "pretty_help": "JSON をインデントして整形します"
  },
  "export": {
    "bicep_template": "Bicep テンプレート",
    "target_scope": "ターゲットスコープ",
    "additional_metadata": "追加メタデータ",
    "imports": "インポート",
    "types": "型",
    "functions": "関数",
    "parameters": "パラメーター",
    "variables": "変数",
    "resources": "リソース",
    "modules": "モジュール",
    "outputs": "出力",
    "namespace_header": "名前空間",
    "version_header": "バージョン",
    "source_header": "ソース",
    "symbols_header": "シンボル",
    "name_header": "名前",
    "type_header": "型",
    "required_header": "必須",
    "default_header": "既定値",
    "description_header": "説明",
    "no_imports_defined": "インポートは定義されていません",
    "no_types_defined": "カスタム型は定義されていません",
    "no_functions_defined": "関数は定義されていません",
    "no_parameters_defined": "パラメーターは定義されていません",
    "no_variables_defined": "変数は定義されていません",
    "no_resources_defined": "リソースは定義されていません",
    "no_modules_defined": "モジュールは定義されていません",
    "no_outputs_defined": "出力は定義されていません",
    "minimum_value": "最小値",
    "maximum_value": "最大値",
    "minimum_length": "最小長",
    "maximum_length": "最大長",
    "allowed_values": "許可される値",
    "discriminator": "識別子",
    "sealed": "シール"
  },
  "common": {
    "yes": "はい",
    "no": "いいえ"
  },
  "error": {
    "file_not_found": "ファイルが見つかりません",
    "parse_error": "解析エラー",
    "export_error": "エクスポートエラー",
    "invalid_language": "無効な言語"
  }
}"#;

/// The embedded Chinese translation document.
pub const CHINESE_TRANSLATIONS: &'static str = r#"{
  "cli": {
    "app_description": "Azure Bicep 文件的文档生成器",
    "app_about": "解析 Azure Bicep 文件并以多种格式导出文档",
    "verbose_help": "设置输出的详细级别 (v: 调试, vv: 跟踪)",
    "quiet_help": "不显示任何日志输出",
    "log_format_help": "设置日志输出的格式",
    "log_file_help": "写入日志的文件路径",
    "language_help": "设置消息和生成文档的语言",
    "markdown_command_desc": "以 Markdown 格式生成 Bicep 文件文档",
    "asciidoc_command_desc": "以 AsciiDoc 格式生成 Bicep 文件文档",
    "yaml_command_desc": "以 YAML 格式生成 Bicep 文件文档",
    "json_command_desc": "以 JSON 格式生成 Bicep 文件文档",
    "input_help": "要解析的 Bicep 文件路径",
    "output_help": "输出文件路径",
    "emoji_help": "在文档中使用表情符号",
    "exclude_empty_help": "跳过文档中的空章节",
    "check_help": "检查生成的文档是否与现有文件一致",
    "pretty_help": "以缩进格式化 JSON"
  },
  "export": {
    "bicep_template": "Bicep 模板",
    "target_scope": "目标范围",
    "additional_metadata": "附加元数据",
    "imports": "导入",
    "types": "类型",
    "functions": "函数",
    "parameters": "参数",
    "variables": "变量",
    "resources": "资源",
    "modules": "模块",
    "outputs": "输出",
    "namespace_header": "命名空间",
    "version_header": "版本",
    "source_header": "来源",
    "symbols_header": "符号",
    "name_header": "名称",
    "type_header": "类型",
    "required_header": "必需",
    "default_header": "默认值",
    "description_header": "描述",
    "no_imports_defined": "未定义导入",
    "no_types_defined": "未定义自定义类型",
    "no_functions_defined": "未定义函数",
    "no_parameters_defined": "未定义参数",
    "no_variables_defined": "未定义变量",
    "no_resources_defined": "未定义资源",
    "no_modules_defined": "未定义模块",
    "no_outputs_defined": "未定义输出",
    "minimum_value": "最小值",
    "maximum_value": "最大值",
    "minimum_length": "最小长度",
    "maximum_length": "最大长度",
    "allowed_values": "允许的值",
    "discriminator": "鉴别器",
    "sealed": "密封"
  },
  "common": {
    "yes": "是",
    "no": "否"
  },
  "error": {
    "file_not_found": "未找到文件",
    "parse_error": "解析错误",
    "export_error": "导出错误",
    "invalid_language": "无效的语言"
  }
}"#;

/// The embedded translation document of a language, as text.
pub open spec fn translation_document(language: Language) -> Seq<char> {
    match language {
        Language::English => ENGLISH_TRANSLATIONS@,
        Language::Spanish => SPANISH_TRANSLATIONS@,
        Language::French => FRENCH_TRANSLATIONS@,
        Language::German => GERMAN_TRANSLATIONS@,
        Language::Japanese => JAPANESE_TRANSLATIONS@,
        Language::Chinese => CHINESE_TRANSLATIONS@,
    }
}

/// The embedded translation document of a language.
fn translation_source(language: Language) -> (r: &'static str)
    ensures
        r@ == translation_document(language),
{
    match language {
        Language::English => ENGLISH_TRANSLATIONS,
        Language::Spanish => SPANISH_TRANSLATIONS,
        Language::French => FRENCH_TRANSLATIONS,
        Language::German => GERMAN_TRANSLATIONS,
        Language::Japanese => JAPANESE_TRANSLATIONS,
        Language::Chinese => CHINESE_TRANSLATIONS,
    }
}

/// `r` is the `LoadError` of a failed parse of the document of `language`.
pub open spec fn load_failed<T>(r: Result<T, LocalizationError>, language: Language) -> bool {
    r matches Err(LocalizationError::LoadError(m)) && exists|x: Seq<char>|
        m@ == "Failed to parse "@ + language_code(language) + ": "@ + x
}

/// What loading the translator of `language` gives: with the documents of
/// `language` and of English both JSON, a translator for `language` whose
/// table is that of its document and whose fallback is that of the English
/// document; else the load error of the first document that is not JSON.
pub open spec fn loaded_translator(r: Result<Translator, LocalizationError>, language: Language) -> bool {
    match json_document(translation_document(language)) {
        None => load_failed(r, language),
        Some(d) => match json_document(translation_document(Language::English)) {
            None => load_failed(r, Language::English),
            Some(e) => r matches Ok(t) && t.language == language && kv_view(t.translations@)
                == translation_table(d) && kv_view(t.fallback_translations@) == translation_table(
                e,
            ),
        },
    }
}

/// Loads the table of a language; a parse failure becomes a `LoadError`
/// naming the language code.
pub fn load_language_translations(language: Language) -> (r: Result<
    OrderedMap<String>,
    LocalizationError,
>)
    ensures
        match json_document(translation_document(language)) {
            Some(d) => r matches Ok(m) && kv_view(m@) == translation_table(d),
            None => load_failed(r, language),
        },
{
    let json_content = translation_source(language);
    match parse_json_translations(json_content) {
        Ok(m) => Ok(m),
        Err(msg) => {
            let mut out: Vec<char> = Vec::new();
            append_str(&mut out, "Failed to parse ");
            append_str(&mut out, language.code());
            append_str(&mut out, ": ");
            append_str(&mut out, msg.as_str());
            Err(LocalizationError::LoadError(string_of(out.as_slice())))
        },
    }
}

/// The translator of a language, with English as fallback.
pub fn load_translations(language: Language) -> (r: Result<Translator, LocalizationError>)
    ensures
        loaded_translator(r, language),
        r matches Ok(t) ==> (language == Language::English ==> t.fallback_translations@
            == t.translations@),
{
    Translator::new(language)
}

// ---------------------------------------------------------------
// Laws
// ---------------------------------------------------------------

/// The keys listed by `available_keys` are exactly those for which
/// `has_translation` holds.
pub proof fn law_available_keys_are_translated_keys(
    tr: Seq<(String, String)>,
    fb: Seq<(String, String)>,
    k: Seq<char>,
)
    ensures
        (key_set(tr).contains(k) || key_set(fb).contains(k)) <==> (index_of(tr, k) is Some
            || index_of(fb, k) is Some),
{
    lemma_index_of(tr, k);
    lemma_index_of(fb, k);
}

/// A key that neither table holds is translated as the key in brackets.
pub proof fn law_untranslated_key_is_bracketed(
    tr: Seq<(String, String)>,
    fb: Seq<(String, String)>,
    k: Seq<char>,
)
    requires
        index_of(tr, k) is None,
        index_of(fb, k) is None,
    ensures
        translation_of(tr, fb, k) == "["@ + k + "]"@,
{
}

/// A key that the translations hold is never taken from the fallback.
pub proof fn law_translation_before_fallback(
    tr: Seq<(String, String)>,
    fb: Seq<(String, String)>,
    k: Seq<char>,
)
    requires
        index_of(tr, k) is Some,
    ensures
        translation_of(tr, fb, k) == tr[index_of(tr, k)->0].1@,
{
}

/// Without arguments, `translate_with_args` gives the plain translation.
pub proof fn law_no_arguments_is_translate(t: Seq<char>, args: Seq<Seq<char>>)
    ensures
        fill_args(t, args, 0) == t,
{
}

/// Loading a language twice (by `Translator::new` or `load_translations`)
/// gives the same outcome: both succeed or both fail, and two translators so
/// loaded have the same language and the same tables.
pub proof fn law_loads_agree(
    a: Result<Translator, LocalizationError>,
    b: Result<Translator, LocalizationError>,
    language: Language,
    k: Seq<char>,
)
    requires
        loaded_translator(a, language),
        loaded_translator(b, language),
    ensures
        a is Ok <==> b is Ok,
        a matches Ok(x) ==> b matches Ok(y) ==> x.language == y.language && translation_of(
            x.translations@,
            x.fallback_translations@,
            k,
        ) == translation_of(y.translations@, y.fallback_translations@, k) && key_set(
            x.translations@,
        ) == key_set(y.translations@) && key_set(x.fallback_translations@) == key_set(
            y.fallback_translations@,
        ),
{
    if a is Ok && b is Ok {
        let x = a->Ok_0;
        let y = b->Ok_0;
        lemma_same_tables(x.translations@, x.fallback_translations@, y.translations@, y.fallback_translations@, k);
    }
}

/// Two pairs of tables with the same entries give the same texts and the
/// same keys.
proof fn lemma_same_tables(
    tr1: Seq<(String, String)>,
    fb1: Seq<(String, String)>,
    tr2: Seq<(String, String)>,
    fb2: Seq<(String, String)>,
    k: Seq<char>,
)
    requires
        kv_view(tr1) == kv_view(tr2),
        kv_view(fb1) == kv_view(fb2),
    ensures
        translation_of(tr1, fb1, k) == translation_of(tr2, fb2, k),
        key_set(tr1) == key_set(tr2),
        key_set(fb1) == key_set(fb2),
{
    lemma_kv_view_lookup(tr1, k);
    lemma_kv_view_lookup(tr2, k);
    lemma_kv_view_lookup(fb1, k);
    lemma_kv_view_lookup(fb2, k);
    lemma_same_key_set(tr1, tr2);
    lemma_same_key_set(fb1, fb2);
}

proof fn lemma_same_key_set(s1: Seq<(String, String)>, s2: Seq<(String, String)>)
    requires
        kv_view(s1) == kv_view(s2),
    ensures
        key_set(s1) == key_set(s2),
{
    assert(kv_view(s1).len() == s1.len() && kv_view(s2).len() == s2.len());
    assert forall|q: Seq<char>| key_set(s1).contains(q) implies key_set(s2).contains(q) by {
        let i = choose|i: int| 0 <= i < s1.len() && s1[i].0@ == q;
        assert(kv_view(s1)[i].0 == s1[i].0@);
        assert(kv_view(s2)[i].0 == s2[i].0@);
    }
    assert forall|q: Seq<char>| key_set(s2).contains(q) implies key_set(s1).contains(q) by {
        let i = choose|i: int| 0 <= i < s2.len() && s2[i].0@ == q;
        assert(kv_view(s1)[i].0 == s1[i].0@);
        assert(kv_view(s2)[i].0 == s2[i].0@);
    }
    assert(key_set(s1) =~= key_set(s2));
}

/// Where the table of a loaded translator has no text for a key and the
/// English table has one, the translator gives the text that the loaded
/// English translator gives.
pub proof fn law_missing_text_is_the_english_text(
    r: Result<Translator, LocalizationError>,
    language: Language,
    en: Result<Translator, LocalizationError>,
    k: Seq<char>,
)
    requires
        loaded_translator(r, language),
        loaded_translator(en, Language::English),
    ensures
        r matches Ok(t) ==> en matches Ok(e) ==> (lookup(t.translations@, k) is None && lookup(
            e.translations@,
            k,
        ) is Some ==> translation_of(t.translations@, t.fallback_translations@, k)
            == translation_of(e.translations@, e.fallback_translations@, k)),
{
    if r is Ok && en is Ok {
        let t = r->Ok_0;
        let e = en->Ok_0;
        lemma_kv_view_lookup(t.translations@, k);
        lemma_kv_view_lookup(t.fallback_translations@, k);
        lemma_kv_view_lookup(e.translations@, k);
    }
}

/// A loaded translator gives a key's text from the document of its
/// language, else from the English document, else the key in brackets.
pub proof fn law_loaded_text_with_english_fallback(
    r: Result<Translator, LocalizationError>,
    language: Language,
    d: JsonView,
    e: JsonView,
    k: Seq<char>,
)
    requires
        loaded_translator(r, language),
        json_document(translation_document(language)) == Some(d),
        json_document(translation_document(Language::English)) == Some(e),
    ensures
        r matches Ok(t) && translation_of(t.translations@, t.fallback_translations@, k) == match get_key(translation_table(d), k) {
            Some(v) => v,
            None => match get_key(translation_table(e), k) {
                Some(v) => v,
                None => "["@ + k + "]"@,
            },
        },
{
    let t = r->Ok_0;
    lemma_kv_view_lookup(t.translations@, k);
    lemma_kv_view_lookup(t.fallback_translations@, k);
}

} // verus!
