//! The facts of a server: entities with attributes, and where each was found.
use crate::text;
use crate::text::same_str;
use vstd::prelude::*;

verus! {

/// The value of an attribute.
#[derive(Debug, PartialEq, Eq)]
pub enum AttrValue {
    Str(String),
    Enum(String),
    Bool(bool),
    Int(i64),
    List(Vec<String>),
}

pub enum AttrFact {
    Str(Seq<char>),
    Enum(Seq<char>),
    Bool(bool),
    Int(int),
    List(Seq<Seq<char>>),
}

impl View for AttrValue {
    type V = AttrFact;

    open spec fn view(&self) -> AttrFact {
        match *self {
            AttrValue::Str(s) => AttrFact::Str(s@),
            AttrValue::Enum(s) => AttrFact::Enum(s@),
            AttrValue::Bool(b) => AttrFact::Bool(b),
            AttrValue::Int(i) => AttrFact::Int(i as int),
            AttrValue::List(v) => AttrFact::List(text::strings(v@)),
        }
    }
}

/// The text of a value: of a string or of an enumeration.
pub open spec fn text_of(v: AttrFact) -> Option<Seq<char>> {
    match v {
        AttrFact::Str(s) => Some(s),
        AttrFact::Enum(s) => Some(s),
        _ => None,
    }
}

/// The truth value of a value.
pub open spec fn flag_of(v: AttrFact) -> Option<bool> {
    match v {
        AttrFact::Bool(b) => Some(b),
        _ => None,
    }
}

impl AttrValue {
    pub fn as_str(&self) -> (r: Option<&str>)
        ensures
            match r {
                Some(s) => text_of(self@) == Some(s@),
                None => text_of(self@) is None,
            },
    {
        match self {
            AttrValue::Str(s) => Some(s.as_str()),
            AttrValue::Enum(s) => Some(s.as_str()),
            _ => None,
        }
    }

    pub fn as_bool(&self) -> (r: Option<bool>)
        ensures
            r == flag_of(self@),
    {
        match self {
            AttrValue::Bool(b) => Some(*b),
            _ => None,
        }
    }
}

/// One thing that was found: the server, a tool, a dependency, or the site of a signal.
#[derive(Debug, PartialEq, Eq)]
pub struct Entity {
    pub id: String,
    pub attributes: Vec<(String, AttrValue)>,
    /// The file it was found in.
    pub path: String,
    /// The line it was found on, from 1, where that is known.
    pub line: Option<u32>,
}

pub struct EntityFacts {
    pub id: Seq<char>,
    pub attributes: Seq<(Seq<char>, AttrFact)>,
    pub path: Seq<char>,
    pub line: Option<u32>,
}

pub open spec fn attr_facts(v: Seq<(String, AttrValue)>) -> Seq<(Seq<char>, AttrFact)> {
    Seq::new(v.len(), |i: int| (v[i].0@, v[i].1@))
}

impl View for Entity {
    type V = EntityFacts;

    open spec fn view(&self) -> EntityFacts {
        EntityFacts {
            id: self.id@,
            attributes: attr_facts(self.attributes@),
            path: self.path@,
            line: self.line,
        }
    }
}

/// The first value under `key` at position `i` or later.
pub open spec fn value_from(attrs: Seq<(Seq<char>, AttrFact)>, key: Seq<char>, i: int) -> Option<AttrFact>
    decreases attrs.len() - i,
{
    if i < 0 || i >= attrs.len() {
        None
    } else if attrs[i].0 == key {
        Some(attrs[i].1)
    } else {
        value_from(attrs, key, i + 1)
    }
}

/// The value of an entity under `key`.
pub open spec fn value(e: EntityFacts, key: Seq<char>) -> Option<AttrFact> {
    value_from(e.attributes, key, 0)
}

/// The text of an entity under `key`.
pub open spec fn text_value(e: EntityFacts, key: Seq<char>) -> Option<Seq<char>> {
    match value(e, key) {
        Some(v) => text_of(v),
        None => None,
    }
}

/// The value of an entity under `key` is `true`.
pub open spec fn is_set(e: EntityFacts, key: Seq<char>) -> bool {
    match value(e, key) {
        Some(v) => flag_of(v) == Some(true),
        None => false,
    }
}

/// An entity is of the given kind.
pub open spec fn of_kind(e: EntityFacts, kind: Seq<char>) -> bool {
    text_value(e, "mcp_kind"@) == Some(kind)
}

impl Entity {
    /// The value under `key`.
    pub fn attr(&self, key: &str) -> (r: Option<&AttrValue>)
        ensures
            match r {
                Some(v) => value(self@, key@) == Some(v@),
                None => value(self@, key@) is None,
            },
    {
        let ghost attrs = attr_facts(self.attributes@);
        let n: usize = self.attributes.len();
        let mut i: usize = 0;
        while i < n
            invariant
                attrs == attr_facts(self.attributes@),
                n == self.attributes@.len(),
                i <= n,
                value(self@, key@) == value_from(attrs, key@, i as int),
            decreases n - i,
        {
            assert(attrs[i as int] == (self.attributes@[i as int].0@, self.attributes@[i as int].1@));
            if same_str(self.attributes[i].0.as_str(), key) {
                return Some(&self.attributes[i].1);
            }
            i = i + 1;
        }
        None
    }

    /// The value under `key` is `true`.
    pub fn flag(&self, key: &str) -> (r: bool)
        ensures
            r == is_set(self@, key@),
    {
        match self.attr(key) {
            Some(v) => match v.as_bool() {
                Some(b) => b,
                None => false,
            },
            None => false,
        }
    }

    /// The text under `key`.
    pub fn text(&self, key: &str) -> (r: Option<&str>)
        ensures
            match r {
                Some(s) => text_value(self@, key@) == Some(s@),
                None => text_value(self@, key@) is None,
            },
    {
        match self.attr(key) {
            Some(v) => v.as_str(),
            None => None,
        }
    }

    /// The entity is of the given kind.
    pub fn is_kind(&self, kind: &str) -> (r: bool)
        ensures
            r == of_kind(self@, kind@),
    {
        match self.text("mcp_kind") {
            Some(s) => same_str(s, kind),
            None => false,
        }
    }
}

/// Where a model comes from.
#[derive(Debug, PartialEq, Eq)]
pub struct SourceDescriptor {
    pub kind: String,
    /// What a digest of the input is taken of: the files in the order of their texts.
    pub digest_input: String,
    pub parser_version: String,
}

#[derive(Debug, PartialEq, Eq)]
pub struct FactModel {
    pub schema_version: String,
    pub source: SourceDescriptor,
    pub entities: Vec<Entity>,
}

pub struct ModelFacts {
    pub schema_version: Seq<char>,
    pub source_kind: Seq<char>,
    pub digest_input: Seq<char>,
    pub parser_version: Seq<char>,
    pub entities: Seq<EntityFacts>,
}

pub open spec fn entity_facts(v: Seq<Entity>) -> Seq<EntityFacts> {
    Seq::new(v.len(), |i: int| v[i]@)
}

impl View for FactModel {
    type V = ModelFacts;

    open spec fn view(&self) -> ModelFacts {
        ModelFacts {
            schema_version: self.schema_version@,
            source_kind: self.source.kind@,
            digest_input: self.source.digest_input@,
            parser_version: self.source.parser_version@,
            entities: entity_facts(self.entities@),
        }
    }
}

/// How many of the first `n` entities are of the given kind.
pub open spec fn count_of(es: Seq<EntityFacts>, kind: Seq<char>, n: int) -> nat
    decreases n,
{
    if n <= 0 || n > es.len() {
        0
    } else if of_kind(es[n - 1], kind) {
        count_of(es, kind, n - 1) + 1
    } else {
        count_of(es, kind, n - 1)
    }
}

/// The first entity of the given kind at position `i` or later.
pub open spec fn first_of(es: Seq<EntityFacts>, kind: Seq<char>, i: int) -> Option<EntityFacts>
    decreases es.len() - i,
{
    if i < 0 || i >= es.len() {
        None
    } else if of_kind(es[i], kind) {
        Some(es[i])
    } else {
        first_of(es, kind, i + 1)
    }
}

/// The server of a model.
pub open spec fn server_of(m: ModelFacts) -> Option<EntityFacts> {
    first_of(m.entities, "server"@, 0)
}

/// The first entity of the given kind.
pub fn first_of_kind<'a>(m: &'a FactModel, kind: &str) -> (r: Option<&'a Entity>)
    ensures
        match r {
            Some(e) => first_of(m@.entities, kind@, 0) == Some(e@),
            None => first_of(m@.entities, kind@, 0) is None,
        },
{
    let ghost es = m@.entities;
    let n: usize = m.entities.len();
    let mut i: usize = 0;
    while i < n
        invariant
            es == m@.entities,
            n == m.entities@.len(),
            i <= n,
            first_of(es, kind@, 0) == first_of(es, kind@, i as int),
        decreases n - i,
    {
        assert(es[i as int] == m.entities@[i as int]@);
        if m.entities[i].is_kind(kind) {
            return Some(&m.entities[i]);
        }
        i = i + 1;
    }
    None
}

/// How many entities of a model are of the given kind.
pub fn kind_count(m: &FactModel, kind: &str) -> (r: usize)
    ensures
        r == count_of(m@.entities, kind@, m@.entities.len() as int),
{
    let ghost es = m@.entities;
    let n: usize = m.entities.len();
    let mut count: usize = 0;
    for i in 0..n
        invariant
            es == m@.entities,
            n == m.entities@.len(),
            count <= i,
            count == count_of(es, kind@, i as int),
    {
        assert(es[i as int] == m.entities@[i as int]@);
        if m.entities[i].is_kind(kind) {
            count = count + 1;
        }
    }
    count
}

} // verus!
