//! Translation of user-facing text and filling of `{name}` placeholders.
use vstd::prelude::*;
use crate::text::{chars_of, eq_chars, push_chars, push_str_chars, replace_all, replace_all_exec, string_of};

verus! {

broadcast use vstd::string::group_string_axioms;

/// The translations in use: pairs of a message and its translation in the user's language.
/// The application fills it from the system's message catalogs (gettext); a message it does
/// not hold is shown as it is, as gettext does without a catalog.
#[derive(Debug, Clone)]
pub struct Catalog {
    entries: Vec<(String, String)>,
}

/// The translation of `message` in `entries`: the first pair for it, else the message itself.
pub open spec fn translated(entries: Seq<(Seq<char>, Seq<char>)>, message: Seq<char>) -> Seq<char>
    decreases entries.len(),
{
    if entries.len() == 0 {
        message
    } else if entries[0].0 == message {
        entries[0].1
    } else {
        translated(entries.drop_first(), message)
    }
}

impl View for Catalog {
    type V = Seq<(Seq<char>, Seq<char>)>;

    closed spec fn view(&self) -> Seq<(Seq<char>, Seq<char>)> {
        self.entries@.map_values(|e: (String, String)| (e.0@, e.1@))
    }
}

impl Catalog {
    /// No translations: every message is shown as it is.
    pub fn new() -> (r: Catalog)
        ensures
            r@ == Seq::<(Seq<char>, Seq<char>)>::empty(),
    {
        let r = Catalog { entries: Vec::new() };
        assert(r@ =~= Seq::<(Seq<char>, Seq<char>)>::empty());
        r
    }

    /// Adds the translation of a message; an earlier translation of it stays in force.
    pub fn add(&mut self, message: &str, translation: &str)
        ensures
            final(self)@ == old(self)@.push((message@, translation@)),
    {
        self.entries.push((message.to_string(), translation.to_string()));
        assert(self@ =~= old(self)@.push((message@, translation@)));
    }

    /// The translation of `message`, or the message itself.
    pub fn lookup(&self, message: &str) -> (r: String)
        ensures
            r@ == translated(self@, message@),
    {
        let ghost all = self@;
        let wanted = chars_of(message);
        let mut i: usize = 0;
        assert(all.skip(0) =~= all);
        while i < self.entries.len()
            invariant
                all == self@,
                all.len() == self.entries@.len(),
                i <= self.entries.len(),
                wanted@ == message@,
                translated(all, message@) == translated(all.skip(i as int), message@),
            decreases self.entries.len() - i,
        {
            let ghost rest = all.skip(i as int);
            assert(rest[0] == (self.entries@[i as int].0@, self.entries@[i as int].1@));
            assert(rest.drop_first() =~= all.skip(i + 1));
            let key = chars_of(self.entries[i].0.as_str());
            if eq_chars(&key, &wanted) {
                return self.entries[i].1.as_str().to_string();
            }
            i = i + 1;
        }
        assert(all.skip(i as int) =~= Seq::<(Seq<char>, Seq<char>)>::empty());
        message.to_string()
    }
}

/// Translates `message` with the catalog.
pub fn tr(catalog: &Catalog, message: &str) -> (r: String)
    ensures
        r@ == translated(catalog@, message@),
{
    catalog.lookup(message)
}

/// The placeholder `{key}`.
pub open spec fn placeholder(key: Seq<char>) -> Seq<char> {
    seq!['{'] + key + seq!['}']
}

/// `text` with each `{key}` replaced by its value, one pair after the other in order.
pub open spec fn fill_placeholders(text: Seq<char>, values: Seq<(Seq<char>, Seq<char>)>) -> Seq<char>
    decreases values.len(),
{
    if values.len() == 0 {
        text
    } else {
        replace_all(
            fill_placeholders(text, values.drop_last()),
            placeholder(values.last().0),
            values.last().1,
        )
    }
}

/// The views of placeholder values.
pub open spec fn value_views(values: Seq<(&str, &str)>) -> Seq<(Seq<char>, Seq<char>)> {
    values.map_values(|v: (&str, &str)| (v.0@, v.1@))
}

/// Fills the `{key}` placeholders of an already translated text.
pub fn fill_translated(translated: &str, values: &[(&str, &str)]) -> (r: String)
    ensures
        r@ == fill_placeholders(translated@, value_views(values@)),
{
    let mut text = chars_of(translated);
    let ghost vv = value_views(values@);
    for i in 0..values.len()
        invariant
            vv == value_views(values@),
            text@ == fill_placeholders(translated@, vv.take(i as int)),
    {
        assert(vv.take(i + 1).drop_last() =~= vv.take(i as int));
        let (key, value) = values[i];
        let mut pat: Vec<char> = Vec::new();
        pat.push('{');
        let kc = chars_of(key);
        pat.append(&mut kc.clone());
        pat.push('}');
        assert(pat@ =~= placeholder(key@));
        let vc = chars_of(value);
        text = replace_all_exec(&text, &pat, &vc);
    }
    assert(vv.take(values.len() as int) =~= vv);
    string_of(&text)
}

/// Translates `message` with the catalog and fills its `{key}` placeholders with the values.
pub fn tr_format(catalog: &Catalog, message: &str, values: &[(&str, &str)]) -> (r: String)
    ensures
        r@ == fill_placeholders(translated(catalog@, message@), value_views(values@)),
{
    let translation = tr(catalog, message);
    fill_translated(translation.as_str(), values)
}

} // verus!
