//! JSON documents that are written out.
use crate::deps;
use crate::text;
use vstd::prelude::*;

verus! {

#[derive(Debug, PartialEq, Eq)]
pub enum Json {
    Null,
    Int(i64),
    Str(String),
    Arr(Vec<Json>),
    Obj(Vec<(String, Json)>),
}

/// What a document says.
pub enum Doc {
    Null,
    Int(int),
    Str(Seq<char>),
    Arr(Seq<Doc>),
    Obj(Seq<(Seq<char>, Doc)>),
}

/// What a document says.
pub open spec fn doc(j: Json) -> Doc
    decreases j,
{
    match j {
        Json::Null => Doc::Null,
        Json::Int(i) => Doc::Int(i as int),
        Json::Str(s) => Doc::Str(s@),
        Json::Arr(v) => Doc::Arr(
            Seq::new(
                v@.len(),
                |i: int|
                    if 0 <= i < v@.len() {
                        doc(v@[i])
                    } else {
                        Doc::Null
                    },
            ),
        ),
        Json::Obj(v) => Doc::Obj(
            Seq::new(
                v@.len(),
                |i: int|
                    if 0 <= i < v@.len() {
                        (v@[i].0@, doc(v@[i].1))
                    } else {
                        (Seq::empty(), Doc::Null)
                    },
            ),
        ),
    }
}

/// What the items of a list say.
pub open spec fn docs(v: Seq<Json>) -> Seq<Doc> {
    Seq::new(v.len(), |i: int| doc(v[i]))
}

/// What the members of an object say.
pub open spec fn member_docs(v: Seq<(String, Json)>) -> Seq<(Seq<char>, Doc)> {
    Seq::new(v.len(), |i: int| (v[i].0@, doc(v[i].1)))
}

impl View for Json {
    type V = Doc;

    open spec fn view(&self) -> Doc {
        doc(*self)
    }
}

/// A text.
pub fn text_json(s: &str) -> (r: Json)
    ensures
        r@ == Doc::Str(s@),
{
    Json::Str(s.to_owned())
}

/// A list.
pub fn list_json(v: Vec<Json>) -> (r: Json)
    ensures
        r@ == Doc::Arr(docs(v@)),
{
    let r = Json::Arr(v);
    assert(r@ matches Doc::Arr(s) && s =~= docs(v@));
    r
}

/// An object.
pub fn object_json(v: Vec<(String, Json)>) -> (r: Json)
    ensures
        r@ == Doc::Obj(member_docs(v@)),
{
    let r = Json::Obj(v);
    assert(r@ matches Doc::Obj(s) && s =~= member_docs(v@));
    r
}

/// Add a member to an object.
pub fn add_member(v: &mut Vec<(String, Json)>, key: &str, value: Json)
    ensures
        member_docs(final(v)@) == member_docs(old(v)@).push((key@, value@)),
{
    let ghost before = member_docs(v@);
    v.push((key.to_owned(), value));
    assert(member_docs(v@) =~= before.push((key@, value@)));
}

/// A list of texts.
pub fn texts_json(v: &Vec<String>) -> (r: Json)
    ensures
        r@ == Doc::Arr(text_docs(text::strings(v@))),
{
    let mut out: Vec<Json> = Vec::new();
    for i in 0..v.len()
        invariant
            out@.len() == i,
            forall|j: int| 0 <= j < i ==> doc(#[trigger] out@[j]) == Doc::Str(v@[j]@),
    {
        out.push(text_json(v[i].as_str()));
    }
    assert(docs(out@) =~= text_docs(text::strings(v@)));
    list_json(out)
}

/// A list of texts.
pub open spec fn text_docs(v: Seq<Seq<char>>) -> Seq<Doc> {
    Seq::new(v.len(), |i: int| Doc::Str(v[i]))
}

/// A list of numbers.
pub open spec fn number_docs(v: Seq<u32>) -> Seq<Doc> {
    Seq::new(v.len(), |i: int| Doc::Int(v[i] as int))
}

/// A list of numbers.
pub fn numbers_json(v: &Vec<u32>) -> (r: Json)
    ensures
        r@ == Doc::Arr(number_docs(v@)),
{
    let mut out: Vec<Json> = Vec::new();
    for i in 0..v.len()
        invariant
            out@.len() == i,
            forall|j: int| 0 <= j < i ==> doc(#[trigger] out@[j]) == Doc::Int(v@[j] as int),
    {
        out.push(Json::Int(v[i] as i64));
    }
    assert(docs(out@) =~= number_docs(v@));
    list_json(out)
}

/// A text, or null.
pub open spec fn text_or_null(s: Option<Seq<char>>) -> Doc {
    match s {
        Some(t) => Doc::Str(t),
        None => Doc::Null,
    }
}

/// A text, or null.
pub fn opt_text_json(s: &Option<String>) -> (r: Json)
    ensures
        r@ == text_or_null(deps::text_opt(*s)),
{
    match s {
        Some(t) => text_json(t.as_str()),
        None => Json::Null,
    }
}

/// A number, or null.
pub open spec fn number_or_null(n: Option<u32>) -> Doc {
    match n {
        Some(i) => Doc::Int(i as int),
        None => Doc::Null,
    }
}

/// A number, or null.
pub fn opt_number_json(n: Option<u32>) -> (r: Json)
    ensures
        r@ == number_or_null(n),
{
    match n {
        Some(i) => Json::Int(i as i64),
        None => Json::Null,
    }
}

} // verus!
