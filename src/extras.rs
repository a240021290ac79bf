use crate::style::{has_escape, paint, shown, Style};
use crate::text::{chars_of, indent, indented, join_with, joined, views};
use vstd::prelude::*;

verus! {

/// What the formatter reads of a JSON value.
#[derive(Clone, Debug, PartialEq, Eq)]
pub enum JsonKind {
    Null,
    Bool(bool),
    /// A number with no fractional part, within the 128-bit range.
    Integer(i128),
    /// Any other number.
    Fraction,
    Text(String),
    Array,
    Object,
}

/// A JSON value: its kind, and its pretty serialization with two-space indentation.
#[derive(Clone, Debug, PartialEq, Eq)]
pub struct JsonField {
    pub kind: JsonKind,
    pub pretty: String,
}

impl JsonField {
    /// An equal value.
    pub fn copy(&self) -> (r: JsonField)
        ensures
            r == *self,
    {
        let kind = match &self.kind {
            JsonKind::Null => JsonKind::Null,
            JsonKind::Bool(b) => JsonKind::Bool(*b),
            JsonKind::Integer(n) => JsonKind::Integer(*n),
            JsonKind::Fraction => JsonKind::Fraction,
            JsonKind::Text(s) => JsonKind::Text(s.clone()),
            JsonKind::Array => JsonKind::Array,
            JsonKind::Object => JsonKind::Object,
        };
        JsonField { kind, pretty: self.pretty.clone() }
    }
}

/// An empty string or one with a space is shown in double quotes.
pub open spec fn needs_quotes(s: Seq<char>) -> bool {
    s.len() == 0 || s.contains(' ')
}

/// The text that stands for a value: a string's own characters (quoted where
/// `needs_quotes` says), any other value's pretty serialization.
pub open spec fn stringified(f: JsonField) -> Seq<char> {
    match f.kind {
        JsonKind::Text(s) => if needs_quotes(s@) {
            seq!['"'] + s@ + seq!['"']
        } else {
            s@
        },
        _ => f.pretty@,
    }
}

/// A value goes to a detail block when its text spans lines or is longer than 50 characters.
pub open spec fn is_detail(f: JsonField) -> bool {
    stringified(f).contains('\n') || stringified(f).len() > 50
}

pub open spec fn inline_item(key: Seq<char>, f: JsonField) -> Seq<char> {
    key + seq!['='] + stringified(f)
}

pub open spec fn detail_item(key: Seq<char>, f: JsonField) -> Seq<char> {
    indented(key + seq![':', ' '] + stringified(f))
}

/// The `key=value` items of the inline values, in order; `keys` are the keys as shown.
pub open spec fn inline_items(keys: Seq<Seq<char>>, vals: Seq<JsonField>) -> Seq<Seq<char>>
    decreases vals.len(),
{
    if vals.len() == 0 || keys.len() != vals.len() {
        Seq::empty()
    } else {
        let prev = inline_items(keys.drop_last(), vals.drop_last());
        if is_detail(vals.last()) {
            prev
        } else {
            prev.push(inline_item(keys.last(), vals.last()))
        }
    }
}

/// The indented `key: value` blocks of the detail values, in order.
pub open spec fn detail_items(keys: Seq<Seq<char>>, vals: Seq<JsonField>) -> Seq<Seq<char>>
    decreases vals.len(),
{
    if vals.len() == 0 || keys.len() != vals.len() {
        Seq::empty()
    } else {
        let prev = detail_items(keys.drop_last(), vals.drop_last());
        if is_detail(vals.last()) {
            prev.push(detail_item(keys.last(), vals.last()))
        } else {
            prev
        }
    }
}

/// ` (k1=v1,k2=v2)`, or nothing when there are no items.
pub open spec fn inline_group(items: Seq<Seq<char>>) -> Seq<char> {
    if items.len() == 0 {
        Seq::empty()
    } else {
        seq![' ', '('] + joined(items, seq![',']) + seq![')']
    }
}

pub open spec fn detail_separator() -> Seq<char> {
    seq!['\n', ' ', ' ', ' ', ' ', '-', '-', '\n']
}

/// The blocks separated by `    --` lines and ended by a newline, or nothing.
pub open spec fn detail_group(items: Seq<Seq<char>>) -> Seq<char> {
    if items.len() == 0 {
        Seq::empty()
    } else {
        joined(items, detail_separator()) + seq!['\n']
    }
}

pub open spec fn field_keys(entries: Seq<(String, JsonField)>) -> Seq<Seq<char>> {
    entries.map_values(|e: (String, JsonField)| e.0@)
}

pub open spec fn field_values(entries: Seq<(String, JsonField)>) -> Seq<JsonField> {
    entries.map_values(|e: (String, JsonField)| e.1)
}

/// The extras text with the keys shown as `keys`.
pub open spec fn extras_text(keys: Seq<Seq<char>>, vals: Seq<JsonField>) -> Seq<char> {
    inline_group(inline_items(keys, vals)) + seq!['\n'] + detail_group(detail_items(keys, vals))
}

/// `keys` shows each key of `entries`, in bold when `enabled`.
pub open spec fn keys_shown(entries: Seq<(String, JsonField)>, enabled: bool, keys: Seq<Seq<char>>) -> bool {
    &&& keys.len() == entries.len()
    &&& forall|i: int|
        0 <= i < keys.len() && !has_escape(entries[i].0@) ==> shown(
            enabled,
            Style::Bold,
            entries[i].0@,
            #[trigger] keys[i],
        )
}

/// `out` renders `entries`, with some showing of the keys that `keys_shown` admits.
pub open spec fn extras_rendered(entries: Seq<(String, JsonField)>, enabled: bool, out: Seq<char>) -> bool {
    exists|keys: Seq<Seq<char>>|
        keys_shown(entries, enabled, keys) && #[trigger] extras_text(keys, field_values(entries)) == out
}

fn contains_char(cs: &Vec<char>, c: char) -> (r: bool)
    ensures
        r == cs@.contains(c),
{
    let mut i: usize = 0;
    while i < cs.len()
        invariant
            i <= cs.len(),
            forall|j: int| 0 <= j < i ==> cs@[j] != c,
        decreases cs.len() - i,
    {
        if cs[i] == c {
            return true;
        }
        i = i + 1;
    }
    false
}

/// The text that stands for a value, as `stringified` says.
pub fn value_text(f: &JsonField) -> (r: String)
    ensures
        r@ == stringified(*f),
{
    match &f.kind {
        JsonKind::Text(s) => {
            let cs = chars_of(s.as_str());
            if cs.len() == 0 || contains_char(&cs, ' ') {
                let mut r = String::from_str("\"");
                r.append(s.as_str());
                r.append("\"");
                proof { reveal_strlit("\""); }
                assert(r@ =~= seq!['"'] + s@ + seq!['"']);
                r
            } else {
                s.clone()
            }
        },
        _ => f.pretty.clone(),
    }
}

/// Whether a value goes to a detail block.
pub fn classify_detail(f: &JsonField) -> (r: bool)
    ensures
        r == is_detail(*f),
{
    let s = value_text(f);
    let cs = chars_of(s.as_str());
    contains_char(&cs, '\n') || cs.len() > 50
}

fn concat3(a: &str, b: &str, c: &str) -> (r: String)
    ensures
        r@ == a@ + b@ + c@,
{
    let mut r = String::from_str(a);
    r.append(b);
    r.append(c);
    r
}

/// Renders the extra fields: short values inline as ` (k=v,...)`, then a
/// newline, then the long or multi-line ones as indented `key: value` blocks.
/// Keys are bold when `use_color` is set.
pub fn format_extras(extras: &Vec<(String, JsonField)>, use_color: bool) -> (r: String)
    ensures
        extras_rendered(extras@, use_color, r@),
        !use_color ==> r@ == extras_text(field_keys(extras@), field_values(extras@)),
{
    let mut inline: Vec<String> = Vec::new();
    let mut details: Vec<String> = Vec::new();
    let ghost mut keys: Seq<Seq<char>> = Seq::empty();
    let mut i: usize = 0;
    while i < extras.len()
        invariant
            i <= extras.len(),
            keys.len() == i,
            keys_shown(extras@.subrange(0, i as int), use_color, keys),
            !use_color ==> keys == field_keys(extras@.subrange(0, i as int)),
            views(inline@) == inline_items(keys, field_values(extras@.subrange(0, i as int))),
            views(details@) == detail_items(keys, field_values(extras@.subrange(0, i as int))),
        decreases extras.len() - i,
    {
        let key = &extras[i].0;
        let f = &extras[i].1;
        let shown_key = paint(key.as_str(), Style::Bold, use_color);
        let s = value_text(f);
        let ghost old_inline = views(inline@);
        let ghost old_details = views(details@);
        if classify_detail(f) {
            let block = concat3(shown_key.as_str(), ": ", s.as_str());
            proof { reveal_strlit(": "); }
            assert(block@ =~= shown_key@ + seq![':', ' '] + stringified(*f));
            let b = indent(block.as_str());
            details.push(b);
        } else {
            let item = concat3(shown_key.as_str(), "=", s.as_str());
            proof { reveal_strlit("="); }
            assert(item@ =~= inline_item(shown_key@, *f));
            inline.push(item);
        }
        proof {
            let e0 = extras@.subrange(0, i as int);
            let e1 = extras@.subrange(0, i + 1);
            let k1 = keys.push(shown_key@);
            assert(field_values(e1).drop_last() =~= field_values(e0));
            assert(field_values(e1).last() == *f);
            assert(k1.drop_last() =~= keys);
            assert(views(inline@) =~= inline_items(k1, field_values(e1)));
            assert(views(details@) =~= detail_items(k1, field_values(e1)));
            assert forall|j: int|
                0 <= j < k1.len() && !has_escape(e1[j].0@) implies shown(
                use_color,
                Style::Bold,
                e1[j].0@,
                #[trigger] k1[j],
            ) by {
                if j < i {
                    assert(e1[j] == e0[j]);
                    assert(k1[j] == keys[j]);
                }
            }
            if !use_color {
                assert(k1 =~= field_keys(e1));
            }
            keys = k1;
        }
        i = i + 1;
    }
    assert(extras@.subrange(0, extras.len() as int) =~= extras@);
    let ghost items_in = views(inline@);
    let ghost items_de = views(details@);
    let mut r = String::new();
    if inline.len() > 0 {
        let body = join_with(&inline, ",");
        let group = concat3(" (", body.as_str(), ")");
        proof {
            reveal_strlit(",");
            reveal_strlit(" (");
            reveal_strlit(")");
            assert(","@ =~= seq![',']);
        }
        assert(group@ =~= inline_group(items_in));
        r.append(group.as_str());
    }
    r.append("\n");
    if details.len() > 0 {
        let sep = "\n    --\n";
        let body = join_with(&details, sep);
        proof { reveal_strlit("\n    --\n"); }
        assert(sep@ =~= detail_separator());
        r.append(body.as_str());
        r.append("\n");
    }
    proof { reveal_strlit("\n"); }
    assert(r@ =~= extras_text(keys, field_values(extras@)));
    r
}


/// A lone extra field renders inline as ` (key=value)` and a newline when its
/// text is short and on one line, and otherwise as a newline, its indented
/// `key: value` block and a newline; never both.
pub proof fn lemma_single_extra(key: Seq<char>, f: JsonField)
    ensures
        extras_text(seq![key], seq![f]) == if is_detail(f) {
            seq!['\n'] + detail_item(key, f) + seq!['\n']
        } else {
            seq![' ', '('] + inline_item(key, f) + seq![')', '\n']
        },
{
    let keys = seq![key];
    let vals = seq![f];
    assert(keys.drop_last() =~= Seq::<Seq<char>>::empty());
    assert(vals.drop_last() =~= Seq::<JsonField>::empty());
    assert(inline_items(Seq::empty(), Seq::empty()) =~= Seq::<Seq<char>>::empty());
    assert(detail_items(Seq::empty(), Seq::empty()) =~= Seq::<Seq<char>>::empty());
    if is_detail(f) {
        assert(inline_items(keys, vals) =~= Seq::<Seq<char>>::empty());
        assert(detail_items(keys, vals) =~= seq![detail_item(key, f)]);
        assert(extras_text(keys, vals) =~= seq!['\n'] + detail_item(key, f) + seq!['\n']);
    } else {
        assert(inline_items(keys, vals) =~= seq![inline_item(key, f)]);
        assert(detail_items(keys, vals) =~= Seq::<Seq<char>>::empty());
        assert(extras_text(keys, vals) =~= seq![' ', '('] + inline_item(key, f) + seq![')', '\n']);
    }
}

/// A non-empty string value without spaces or newlines goes to a detail block
/// exactly when it is longer than 50 characters.
pub proof fn lemma_text_threshold(s: String, pretty: String)
    requires
        s@.len() > 0,
        !s@.contains(' '),
        !s@.contains('\n'),
    ensures
        is_detail((JsonField { kind: JsonKind::Text(s), pretty })) == (s@.len() > 50),
{
}

/// An empty string value, or one holding a space, is shown in double quotes;
/// any other string value is shown as it is.
pub proof fn lemma_text_quoting(s: String, pretty: String)
    ensures
        needs_quotes(s@) ==> stringified((JsonField { kind: JsonKind::Text(s), pretty }))
            == seq!['"'] + s@ + seq!['"'],
        !needs_quotes(s@) ==> stringified((JsonField { kind: JsonKind::Text(s), pretty })) == s@,
        needs_quotes(s@) == (s@.len() == 0 || s@.contains(' ')),
{
}

} // verus!
