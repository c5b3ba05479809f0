//! The request headers that the screening logic reads, as plain values.
//!
//! Each field has a lowercase name and, when its bytes are visible ASCII, its
//! text; a field whose value is not text is present but has no text.
use crate::text::same_text;
use vstd::prelude::*;

verus! {

/// One header field.
pub struct HeaderField {
    pub name: String,
    pub value: Option<String>,
}

/// The header fields of a request, in the order they arrived.
pub struct Headers {
    pub fields: Vec<HeaderField>,
}

/// A header field as a name and, when it is text, its value.
pub type FieldView = (Seq<char>, Option<Seq<char>>);

/// The text of an optional string.
pub open spec fn opt_text(o: Option<String>) -> Option<Seq<char>> {
    match o {
        Some(s) => Some(s@),
        None => None,
    }
}

impl View for HeaderField {
    type V = FieldView;

    open spec fn view(&self) -> FieldView {
        (self.name@, opt_text(self.value))
    }
}

impl View for Headers {
    type V = Seq<FieldView>;

    open spec fn view(&self) -> Seq<FieldView> {
        self.fields@.map_values(|f: HeaderField| f@)
    }
}

/// The value of the first field called `name`: `None` when there is no such
/// field, `Some(None)` when its value is not text.
pub open spec fn lookup(h: Seq<FieldView>, name: Seq<char>) -> Option<Option<Seq<char>>>
    decreases h.len(),
{
    if h.len() == 0 {
        None
    } else if h[0].0 == name {
        Some(h[0].1)
    } else {
        lookup(h.drop_first(), name)
    }
}

/// The text of the first field called `name`, when there is one and it is
/// text.
pub open spec fn header_text(h: Seq<FieldView>, name: Seq<char>) -> Option<Seq<char>> {
    match lookup(h, name) {
        Some(Some(v)) => Some(v),
        _ => None,
    }
}

/// `h` without the fields called `name`.
pub open spec fn without_name(h: Seq<FieldView>, name: Seq<char>) -> Seq<FieldView>
    decreases h.len(),
{
    if h.len() == 0 {
        h
    } else {
        let rest = without_name(h.drop_last(), name);
        if h.last().0 == name {
            rest
        } else {
            rest.push(h.last())
        }
    }
}

fn clone_text(o: &Option<String>) -> (r: Option<String>)
    ensures
        opt_text(r) == opt_text(*o),
{
    match o {
        Some(s) => Some(s.clone()),
        None => None,
    }
}

impl Headers {
    /// No fields.
    pub fn new() -> (r: Headers)
        ensures
            r@ == Seq::<FieldView>::empty(),
    {
        Headers { fields: Vec::new() }
    }

    /// Sets the field `name` to `value`, replacing every earlier field of that
    /// name.
    pub fn insert(&mut self, name: &str, value: Option<&str>)
        ensures
            final(self)@ == without_name(old(self)@, name@).push(
                (
                    name@,
                    match value {
                        Some(v) => Some(v@),
                        None => None,
                    },
                ),
            ),
    {
        let ghost h = self@;
        let mut kept: Vec<HeaderField> = Vec::new();
        let mut i: usize = 0;
        while i < self.fields.len()
            invariant
                h == self@,
                i <= self.fields@.len(),
                kept@.map_values(|f: HeaderField| f@) == without_name(h.take(i as int), name@),
            decreases self.fields@.len() - i,
        {
            assert(h.take(i + 1).drop_last() =~= h.take(i as int));
            assert(h.take(i + 1).last() == h[i as int]);
            if !same_text(self.fields[i].name.as_str(), name) {
                let f = HeaderField {
                    name: self.fields[i].name.clone(),
                    value: clone_text(&self.fields[i].value),
                };
                kept.push(f);
                assert(kept@.map_values(|f: HeaderField| f@) =~= without_name(
                    h.take(i as int),
                    name@,
                ).push(h[i as int]));
            }
            i = i + 1;
        }
        let ghost total = h.len();
        assert(h.take(total as int) =~= h);
        let v = match value {
            Some(t) => Some(t.to_owned()),
            None => None,
        };
        let field = HeaderField { name: name.to_owned(), value: v };
        let ghost fv = field@;
        kept.push(field);
        assert(kept@.map_values(|f: HeaderField| f@) =~= without_name(h, name@).push(fv));
        self.fields = kept;
    }

    /// The value of the first field called `name` (`HeaderMap::get`).
    pub fn get(&self, name: &str) -> (r: Option<Option<String>>)
        ensures
            match r {
                Some(v) => lookup(self@, name@) == Some(opt_text(v)),
                None => lookup(self@, name@) is None,
            },
    {
        let mut i: usize = 0;
        assert(self@.skip(0) =~= self@);
        while i < self.fields.len()
            invariant
                i <= self.fields@.len(),
                lookup(self@, name@) == lookup(self@.skip(i as int), name@),
            decreases self.fields@.len() - i,
        {
            let ghost rest = self@.skip(i as int);
            assert(rest[0] == self.fields@[i as int]@);
            if same_text(self.fields[i].name.as_str(), name) {
                return Some(clone_text(&self.fields[i].value));
            }
            assert(rest.drop_first() =~= self@.skip(i + 1));
            i = i + 1;
        }
        None
    }

    /// The text of the first field called `name`, when it is text.
    pub fn get_text(&self, name: &str) -> (r: Option<String>)
        ensures
            opt_text(r) == header_text(self@, name@),
    {
        match self.get(name) {
            Some(v) => v,
            None => None,
        }
    }
}


proof fn lemma_lookup_push(h: Seq<FieldView>, x: FieldView, k: Seq<char>)
    ensures
        lookup(h.push(x), k) == (match lookup(h, k) {
            Some(v) => Some(v),
            None => if x.0 == k {
                Some(x.1)
            } else {
                None
            },
        }),
    decreases h.len(),
{
    if h.len() > 0 {
        assert(h.push(x).drop_first() =~= h.drop_first().push(x));
        assert(h.push(x)[0] == h[0]);
        lemma_lookup_push(h.drop_first(), x, k);
    } else {
        assert(h.push(x).drop_first() =~= Seq::<FieldView>::empty());
        assert(h.push(x)[0] == x);
        assert(lookup(Seq::<FieldView>::empty(), k) is None);
        assert(lookup(h, k) is None);
        if x.0 == k {
            assert(lookup(h.push(x), k) == Some(x.1));
        } else {
            assert(lookup(h.push(x), k) == lookup(h.push(x).drop_first(), k));
        }
    }
}

proof fn lemma_lookup_without(h: Seq<FieldView>, n: Seq<char>, k: Seq<char>)
    ensures
        lookup(without_name(h, n), k) == if k == n {
            None
        } else {
            lookup(h, k)
        },
    decreases h.len(),
{
    if h.len() > 0 {
        let init = h.drop_last();
        lemma_lookup_without(init, n, k);
        assert(init.push(h.last()) =~= h);
        lemma_lookup_push(init, h.last(), k);
        if h.last().0 != n {
            lemma_lookup_push(without_name(init, n), h.last(), k);
        }
    }
}

/// After a field is set, reading that name gives the value just set, and
/// reading any other name gives what it gave before.
pub proof fn lemma_read_after_insert(
    h: Seq<FieldView>,
    name: Seq<char>,
    value: Option<Seq<char>>,
    other: Seq<char>,
)
    ensures
        lookup(without_name(h, name).push((name, value)), name) == Some(value),
        other != name ==> lookup(without_name(h, name).push((name, value)), other) == lookup(
            h,
            other,
        ),
{
    lemma_lookup_without(h, name, name);
    lemma_lookup_push(without_name(h, name), (name, value), name);
    lemma_lookup_without(h, name, other);
    lemma_lookup_push(without_name(h, name), (name, value), other);
}

} // verus!
