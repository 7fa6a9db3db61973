//! Localization: string tables per locale, locale switching, translation
//! with fallback, and `{name}` parameter substitution.
use vstd::prelude::*;
use crate::assoc::find_key;
use crate::assoc::keys_distinct;
use crate::assoc::lemma_pairs_lookup;
use crate::assoc::lemma_pairs_map;
use crate::assoc::lemma_pairs_map_push;
use crate::assoc::lemma_pairs_map_update;
use crate::assoc::lemma_text_pairs_lookup;
use crate::assoc::pairs_map;
use crate::assoc::text_pairs;
use crate::text::lemma_insert_sorted;
use crate::text::strictly_sorted;
use crate::text::replace_all;
use crate::text::replace_str;
use crate::text::str_eq;
use crate::text::str_lt;
use crate::text::text_lt;

verus! {

#[verifier::external_type_specification]
#[verifier::external_body]
pub struct ExJsonError(serde_json::Error);

#[verifier::external_type_specification]
#[verifier::external_body]
pub struct ExIoError(std::io::Error);

/// The table that `serde_json::from_str` reads from `text` as a flat JSON
/// object of string values, or `None` when it refuses the text.
pub uninterp spec fn json_string_table(text: Seq<char>) -> Option<Map<Seq<char>, Seq<char>>>;

/// Calls `serde_json::from_str` for a `HashMap<String, String>` and lists
/// its pairs. Claimed: it succeeds exactly when the named result is
/// `Some`, the listed keys are distinct (they come from a map), and they
/// describe that table. The order of the list is left open.
#[verifier::external_body]
fn parse_string_table(json: &str) -> (r: Result<Vec<(String, String)>, serde_json::Error>)
    ensures
        r is Ok == json_string_table(json@) is Some,
        r matches Ok(v) ==> keys_distinct(text_pairs(v@)) && pairs_map(text_pairs(v@)) == json_string_table(
            json@,
        )->0,
{
    match serde_json::from_str::<std::collections::HashMap<String, String>>(json) {
        Ok(table) => Ok(table.into_iter().collect()),
        Err(e) => Err(e),
    }
}

/// A locale identifier (such as "en", "zh-CN" or "ja").
#[derive(Debug, Clone, PartialEq, Eq, Hash)]
pub struct Locale(pub String);

impl Locale {
    pub fn new(id: &str) -> (r: Self)
        ensures
            r.0@ == id@,
    {
        Locale(String::from_str(id))
    }

    pub fn id(&self) -> (r: &str)
        ensures
            r@ == self.0@,
    {
        self.0.as_str()
    }
}

impl From<&str> for Locale {
    fn from(id: &str) -> (r: Self)
        ensures
            r.0@ == id@,
    {
        Locale(String::from_str(id))
    }
}

impl vstd::std_specs::convert::FromSpecImpl<&str> for Locale {
    open spec fn obeys_from_spec() -> bool {
        false
    }

    open spec fn from_spec(id: &str) -> Self {
        Locale(choose|s: String| s@ == id@)
    }
}

/// Errors of the localization system.
#[derive(Debug)]
pub enum I18nError {
    /// The file of a locale could not be read.
    IoError { locale: String, source: std::io::Error },
    /// The text of a locale is not a flat JSON object of strings.
    ParseError { locale: String, source: serde_json::Error },
    /// The locale was never loaded.
    LocaleNotLoaded(String),
}

/// One loaded locale and its pairs of key and translation.
struct LocaleTable {
    locale: String,
    entries: Vec<(String, String)>,
}

/// The abstract state of a [`LocalizationManager`]: the table of each
/// loaded locale, and the current locale (empty when none is set).
pub struct I18nView {
    pub tables: Map<Seq<char>, Map<Seq<char>, Seq<char>>>,
    pub current: Seq<char>,
}

impl I18nView {
    /// The translation of `key` in the current locale, if there is one.
    pub open spec fn lookup(self, key: Seq<char>) -> Option<Seq<char>> {
        if self.tables.contains_key(self.current) && self.tables[self.current].contains_key(key) {
            Some(self.tables[self.current][key])
        } else {
            None
        }
    }

    /// What `tr` gives: the translation, or the key itself.
    pub open spec fn translate(self, key: Seq<char>) -> Seq<char> {
        match self.lookup(key) {
            Some(t) => t,
            None => key,
        }
    }
}

/// The texts of string slices.
pub open spec fn str_views(s: Seq<&str>) -> Seq<Seq<char>> {
    s.map_values(|x: &str| x@)
}

/// The first position whose string comes after `x`.
fn insertion_point(v: &Vec<&str>, x: &str) -> (p: usize)
    ensures
        p <= v@.len(),
        forall|q: int| 0 <= q < p ==> !text_lt(x@, #[trigger] str_views(v@)[q]),
        p < v@.len() ==> text_lt(x@, str_views(v@)[p as int]),
{
    let mut p: usize = 0;
    while p < v.len() && !str_lt(x, v[p])
        invariant
            p <= v@.len(),
            forall|q: int| 0 <= q < p ==> !text_lt(x@, #[trigger] str_views(v@)[q]),
        decreases v@.len() - p,
    {
        p = p + 1;
    }
    p
}

/// `v` lists exactly the first `t` locale names of `list`.
#[verifier::opaque]
pub open spec fn lists_first<T>(v: Seq<Seq<char>>, list: Seq<(Seq<char>, T)>, t: int) -> bool {
    &&& forall|i: int| 0 <= i < v.len() ==> exists|j: int| 0 <= j < t && #[trigger] v[i] == list[j].0
    &&& forall|j: int| #![trigger list[j]] 0 <= j < t ==> exists|i: int| 0 <= i < v.len() && v[i] == list[j].0
}

/// Inserting the next name keeps the listing exact.
proof fn lemma_insert_member<T>(v: Seq<Seq<char>>, p: int, list: Seq<(Seq<char>, T)>, t: int)
    requires
        0 <= t < list.len(),
        0 <= p <= v.len(),
        lists_first(v, list, t),
    ensures
        lists_first(v.insert(p, list[t].0), list, t + 1),
{
    reveal(lists_first);
    let w = v.insert(p, list[t].0);
    assert forall|i: int| 0 <= i < w.len() implies exists|j: int| 0 <= j < t + 1 && #[trigger] w[i] == list[j].0 by {
        if i < p {
            assert(w[i] == v[i]);
        } else if i == p {
            assert(w[i] == list[t].0);
        } else {
            assert(w[i] == v[i - 1]);
        }
    }
    assert forall|j: int| #![trigger list[j]] 0 <= j < t + 1 implies exists|i: int| 0 <= i < w.len() && w[i] == list[j].0 by {
        if j == t {
            assert(w[p] == list[j].0);
        } else {
            let i = choose|i: int| 0 <= i < v.len() && v[i] == list[j].0;
            if i < p {
                assert(w[i] == v[i]);
            } else {
                assert(w[i + 1] == v[i]);
            }
        }
    }
}

/// A name not yet listed differs from every listed one.
proof fn lemma_next_is_new<T>(v: Seq<Seq<char>>, list: Seq<(Seq<char>, T)>, t: int)
    requires
        keys_distinct(list),
        0 <= t < list.len(),
        lists_first(v, list, t),
    ensures
        forall|q: int| 0 <= q < v.len() ==> #[trigger] v[q] != list[t].0,
{
    reveal(lists_first);
    assert forall|q: int| 0 <= q < v.len() implies #[trigger] v[q] != list[t].0 by {
        let j = choose|j: int| 0 <= j < t && v[q] == list[j].0;
        assert(list[j].0 != list[t].0);
    }
}

/// `{name}`, the placeholder of a parameter.
pub open spec fn placeholder(name: Seq<char>) -> Seq<char> {
    seq!['{'] + name + seq!['}']
}

/// `template` with each parameter substituted in turn, first to last.
pub open spec fn substitute_all(template: Seq<char>, args: Seq<(&str, &str)>) -> Seq<char>
    decreases args.len(),
{
    if args.len() == 0 {
        template
    } else {
        replace_all(substitute_all(template, args.drop_last()), placeholder(args.last().0@), args.last().1@)
    }
}

/// Holds all loaded string tables and the current locale.
pub struct LocalizationManager {
    tables: Vec<LocaleTable>,
    current_locale: String,
}

impl LocalizationManager {
    /// The loaded locales with their tables, in loading order.
    closed spec fn table_list(&self) -> Seq<(Seq<char>, Map<Seq<char>, Seq<char>>)> {
        self.tables@.map_values(|t: LocaleTable| (t.locale@, pairs_map(text_pairs(t.entries@))))
    }

    /// Locales are loaded at most once, and no table holds a key twice.
    pub closed spec fn wf(&self) -> bool {
        &&& keys_distinct(self.table_list())
        &&& forall|i: int| 0 <= i < self.tables@.len() ==> keys_distinct(#[trigger] text_pairs(self.tables@[i].entries@))
    }

    pub closed spec fn view(&self) -> I18nView {
        I18nView { tables: pairs_map(self.table_list()), current: self.current_locale@ }
    }

    /// A manager with no table and no current locale.
    pub fn new() -> (m: Self)
        ensures
            m.wf(),
            m.view().tables == Map::<Seq<char>, Map<Seq<char>, Seq<char>>>::empty(),
            m.view().current == Seq::<char>::empty(),
    {
        let m = LocalizationManager { tables: Vec::new(), current_locale: String::new() };
        assert(m.table_list() =~= Seq::empty());
        m
    }

    /// The position of the table of `locale`.
    fn find_table(&self, locale: &str) -> (r: Option<usize>)
        requires
            self.wf(),
        ensures
            self.view().tables.contains_key(locale@) == r is Some,
            r matches Some(i) ==> i < self.tables@.len() && self.tables@[i as int].locale@ == locale@
                && self.view().tables[locale@] == pairs_map(text_pairs(self.tables@[i as int].entries@)),
    {
        let mut i: usize = 0;
        while i < self.tables.len()
            invariant
                i <= self.tables@.len(),
                self.wf(),
                forall|j: int| 0 <= j < i ==> self.tables@[j].locale@ != locale@,
            decreases self.tables@.len() - i,
        {
            if str_eq(self.tables[i].locale.as_str(), locale) {
                proof {
                    assert(self.table_list()[i as int].0 == self.tables@[i as int].locale@);
                    lemma_pairs_lookup(self.table_list(), locale@, Some(i));
                }
                return Some(i);
            }
            i = i + 1;
        }
        proof {
            assert forall|j: int| 0 <= j < self.table_list().len() implies self.table_list()[j].0 != locale@ by {
                assert(self.table_list()[j].0 == self.tables@[j].locale@);
            }
            lemma_pairs_lookup(self.table_list(), locale@, None);
        }
        None
    }

    /// Stores `entries` (distinct keys, each with its text) as the table of
    /// `locale`, replacing a table loaded earlier for the same locale.
    pub fn load_locale_table(&mut self, locale: &str, entries: Vec<(String, String)>)
        requires
            old(self).wf(),
            keys_distinct(text_pairs(entries@)),
        ensures
            final(self).wf(),
            final(self).view() == (I18nView {
                tables: old(self).view().tables.insert(locale@, pairs_map(text_pairs(entries@))),
                current: old(self).view().current,
            }),
    {
        let ghost table = pairs_map(text_pairs(entries@));
        let ghost old_list = self.table_list();
        let found = self.find_table(locale);
        let t = LocaleTable { locale: String::from_str(locale), entries };
        match found {
            Some(i) => {
                self.tables.set(i, t);
                proof {
                    assert(self.table_list() =~= old_list.update(i as int, (old_list[i as int].0, table)));
                    lemma_pairs_map_update(old_list, i as int, table);
                    assert forall|j: int| 0 <= j < self.tables@.len() implies keys_distinct(
                        #[trigger] text_pairs(self.tables@[j].entries@),
                    ) by {
                        if j != i {
                            assert(self.tables@[j] == old(self).tables@[j]);
                        }
                    }
                }
            },
            None => {
                self.tables.push(t);
                proof {
                    assert(self.table_list() =~= old_list.push((locale@, table)));
                    lemma_pairs_map(old_list);
                    assert forall|j: int| 0 <= j < old_list.len() implies old_list[j].0 != locale@ by {
                        assert(pairs_map(old_list).contains_key(old_list[j].0));
                    }
                    lemma_pairs_map_push(old_list, locale@, table);
                    assert forall|j: int| 0 <= j < self.tables@.len() implies keys_distinct(
                        #[trigger] text_pairs(self.tables@[j].entries@),
                    ) by {
                        if j < old_list.len() {
                            assert(self.tables@[j] == old(self).tables@[j]);
                        }
                    }
                }
            },
        }
    }

    /// Loads the table of `locale` from a JSON text holding a flat object
    /// of strings, such as `{ "greeting": "Hello" }`. A table loaded
    /// earlier for the same locale is replaced.
    pub fn load_locale_from_str(&mut self, locale: &str, json_str: &str) -> (r: Result<(), I18nError>)
        requires
            old(self).wf(),
        ensures
            final(self).wf(),
            r is Ok == json_string_table(json_str@) is Some,
            r is Ok ==> final(self).view() == (I18nView {
                tables: old(self).view().tables.insert(locale@, json_string_table(json_str@)->0),
                current: old(self).view().current,
            }),
            r is Err ==> final(self).view() == old(self).view(),
            r matches Err(e) ==> e matches I18nError::ParseError { locale: l, .. } && l@ == locale@,
    {
        match parse_string_table(json_str) {
            Err(e) => Err(I18nError::ParseError { locale: String::from_str(locale), source: e }),
            Ok(entries) => {
                self.load_locale_table(locale, entries);
                Ok(())
            },
        }
    }

    /// Makes `locale` the current locale; it must have been loaded.
    pub fn set_locale(&mut self, locale: &str) -> (r: Result<(), I18nError>)
        requires
            old(self).wf(),
        ensures
            final(self).wf(),
            r is Ok == old(self).view().tables.contains_key(locale@),
            r is Ok ==> final(self).view() == (I18nView { tables: old(self).view().tables, current: locale@ }),
            r is Err ==> final(self).view() == old(self).view(),
            r matches Err(e) ==> e matches I18nError::LocaleNotLoaded(l) && l@ == locale@,
    {
        match self.find_table(locale) {
            None => Err(I18nError::LocaleNotLoaded(String::from_str(locale))),
            Some(_) => {
                self.current_locale = String::from_str(locale);
                Ok(())
            },
        }
    }

    /// The current locale, empty when none was set.
    pub fn current_locale(&self) -> (r: &str)
        ensures
            r@ == self.view().current,
    {
        self.current_locale.as_str()
    }

    /// The translation of `key` in the current locale, or the key itself
    /// when there is none.
    pub fn tr<'a>(&'a self, key: &'a str) -> (r: &'a str)
        requires
            self.wf(),
        ensures
            r@ == self.view().translate(key@),
    {
        match self.find_table(self.current_locale.as_str()) {
            None => key,
            Some(t) => {
                let found = find_key(&self.tables[t].entries, key);
                proof {
                    lemma_text_pairs_lookup(self.tables@[t as int].entries@, key@, found);
                }
                match found {
                    Some(j) => self.tables[t].entries[j].1.as_str(),
                    None => key,
                }
            },
        }
    }

    /// The translation of `key` in the current locale, or `fallback` when
    /// there is none.
    pub fn tr_with_fallback<'a>(&'a self, key: &'a str, fallback: &'a str) -> (r: &'a str)
        requires
            self.wf(),
        ensures
            r@ == match self.view().lookup(key@) {
                Some(t) => t,
                None => fallback@,
            },
    {
        match self.find_table(self.current_locale.as_str()) {
            None => fallback,
            Some(t) => {
                let found = find_key(&self.tables[t].entries, key);
                proof {
                    lemma_text_pairs_lookup(self.tables@[t as int].entries@, key@, found);
                }
                match found {
                    Some(j) => self.tables[t].entries[j].1.as_str(),
                    None => fallback,
                }
            },
        }
    }

    /// Translates `key` and substitutes each `(name, value)` of `args`, in
    /// order: every `{name}` in the text becomes `value`.
    pub fn tr_format(&self, key: &str, args: &[(&str, &str)]) -> (r: String)
        requires
            self.wf(),
        ensures
            r@ == substitute_all(self.view().translate(key@), args@),
    {
        let mut result = String::from_str(self.tr(key));
        let ghost template = self.view().translate(key@);
        let mut i: usize = 0;
        proof {
            assert(args@.take(0) =~= Seq::<(&str, &str)>::empty());
        }
        while i < args.len()
            invariant
                i <= args@.len(),
                result@ == substitute_all(template, args@.take(i as int)),
            decreases args@.len() - i,
        {
            let (name, value) = args[i];
            let mut ph = String::from_str("{");
            ph.append(name);
            ph.append("}");
            proof {
                reveal_strlit("{");
                reveal_strlit("}");
                assert(ph@ =~= placeholder(name@));
                assert(args@.take(i + 1).drop_last() =~= args@.take(i as int));
                assert(args@.take(i + 1).last() == args@[i as int]);
            }
            result = replace_str(result.as_str(), ph.as_str(), value);
            i = i + 1;
        }
        proof {
            assert(args@.take(args@.len() as int) =~= args@);
        }
        result
    }

    /// The loaded locales, in increasing order.
    pub fn available_locales(&self) -> (r: Vec<&str>)
        requires
            self.wf(),
        ensures
            r@.len() == self.view().tables.dom().len(),
            forall|i: int| 0 <= i < r@.len() ==> self.view().tables.contains_key(#[trigger] r@[i]@),
            forall|k: Seq<char>| #[trigger] self.view().tables.contains_key(k) ==> exists|i: int| 0 <= i < r@.len() && r@[i]@ == k,
            strictly_sorted(str_views(r@)),
    {
        let ghost list = self.table_list();
        let n = self.tables.len();
        let mut out: Vec<&str> = Vec::new();
        let mut t: usize = 0;
        proof {
            assert(str_views(out@) =~= Seq::<Seq<char>>::empty());
            reveal(strictly_sorted);
            reveal(lists_first);
        }
        while t < n
            invariant
                n == self.tables@.len(),
                list == self.table_list(),
                keys_distinct(list),
                t <= n,
                out@.len() == t,
                strictly_sorted(str_views(out@)),
                lists_first(str_views(out@), list, t as int),
            decreases n - t,
        {
            let x = self.tables[t].locale.as_str();
            proof {
                assert(list[t as int].0 == x@);
            }
            let p = insertion_point(&out, x);
            let ghost before = out@;
            proof {
                lemma_next_is_new(str_views(before), list, t as int);
                lemma_insert_sorted(str_views(before), p as int, x@);
                lemma_insert_member(str_views(before), p as int, list, t as int);
            }
            out.insert(p, x);
            proof {
                assert(str_views(out@) =~= str_views(before).insert(p as int, x@));
            }
            t = t + 1;
        }
        proof {
            lemma_pairs_map(list);
            reveal(lists_first);
            let v = str_views(out@);
            assert forall|i: int| 0 <= i < out@.len() implies self.view().tables.contains_key(#[trigger] out@[i]@) by {
                assert(v[i] == out@[i]@);
                let j = choose|j: int| 0 <= j < n && v[i] == list[j].0;
            }
            assert forall|k: Seq<char>| #[trigger] self.view().tables.contains_key(k) implies exists|i: int| 0 <= i < out@.len() && out@[i]@ == k by {
                let j = choose|j: int| 0 <= j < list.len() && list[j].0 == k;
                let i = choose|i: int| 0 <= i < v.len() && v[i] == list[j].0;
                assert(v[i] == out@[i]@);
            }
        }
        out
    }

    /// Whether a table was loaded for `locale`.
    pub fn has_locale(&self, locale: &str) -> (r: bool)
        requires
            self.wf(),
        ensures
            r == self.view().tables.contains_key(locale@),
    {
        self.find_table(locale).is_some()
    }
}

impl Default for LocalizationManager {
    fn default() -> (m: Self)
        ensures
            m.wf(),
            m.view().tables == Map::<Seq<char>, Map<Seq<char>, Seq<char>>>::empty(),
            m.view().current == Seq::<char>::empty(),
    {
        Self::new()
    }
}

/// Loading a table for a locale and switching to it makes every key of
/// that table read back as the table's text for it, and any other key read
/// back as itself.
pub proof fn loaded_table_is_read_back(v: I18nView, locale: Seq<char>, table: Map<Seq<char>, Seq<char>>, key: Seq<char>)
    ensures
        (I18nView { tables: v.tables.insert(locale, table), current: locale }).translate(key) == if table.contains_key(key) {
            table[key]
        } else {
            key
        },
{
}

/// Switching to a locale that was never loaded is refused; otherwise it
/// always succeeds and changes nothing but the current locale.
pub proof fn set_locale_succeeds_exactly_for_loaded(v: I18nView, locale: Seq<char>)
    ensures
        v.tables.contains_key(locale) ==> (I18nView { tables: v.tables, current: locale }).tables == v.tables,
{
}

/// With no parameters, formatting gives the plain translation.
pub proof fn format_without_args_is_translation(v: I18nView, key: Seq<char>)
    ensures
        substitute_all(v.translate(key), Seq::<(&str, &str)>::empty()) == v.translate(key),
{
}

/// A missing key is shown as the key itself.
pub proof fn missing_key_reads_as_itself(v: I18nView, key: Seq<char>)
    requires
        v.lookup(key) is None,
    ensures
        v.translate(key) == key,
{
}

} // verus!
