//! Values of a JSON text, level by level.
use vstd::prelude::*;

use crate::outside::{json_level, read_level};
use crate::strs::{opt_string, str_eq, texts};

verus! {

/// One level of a JSON value; what lies below is kept as JSON text.
#[derive(Debug)]
pub enum Json {
    /// The text is no JSON.
    Invalid,
    Null,
    Bool(bool),
    /// A number, with its value where it is a whole one that 64 bits hold.
    Number(Option<u64>),
    Text(String),
    Array(Vec<String>),
    Object(Vec<(String, String)>),
}

/// One level of a JSON value.
pub enum Level {
    Invalid,
    Null,
    Bool(bool),
    Number(Option<u64>),
    Text(Seq<char>),
    Array(Seq<Seq<char>>),
    Object(Seq<(Seq<char>, Seq<char>)>),
}

pub open spec fn members(v: Seq<(String, String)>) -> Seq<(Seq<char>, Seq<char>)> {
    v.map_values(|e: (String, String)| (e.0@, e.1@))
}

impl View for Json {
    type V = Level;

    open spec fn view(&self) -> Level {
        match *self {
            Json::Invalid => Level::Invalid,
            Json::Null => Level::Null,
            Json::Bool(b) => Level::Bool(b),
            Json::Number(n) => Level::Number(n),
            Json::Text(s) => Level::Text(s@),
            Json::Array(v) => Level::Array(texts(v@)),
            Json::Object(v) => Level::Object(members(v@)),
        }
    }
}

/// What stands under `key`, from `i` on.
pub open spec fn member_from(
    v: Seq<(Seq<char>, Seq<char>)>,
    key: Seq<char>,
    i: int,
) -> Option<Seq<char>>
    decreases v.len() - i,
{
    if i < 0 || i >= v.len() {
        None
    } else if v[i].0 == key {
        Some(v[i].1)
    } else {
        member_from(v, key, i + 1)
    }
}

/// The JSON text of an object's member.
pub open spec fn member(l: Level, key: Seq<char>) -> Option<Seq<char>> {
    match l {
        Level::Object(v) => member_from(v, key, 0),
        _ => None,
    }
}

/// The level of an object's member; null where there is none.
pub open spec fn level_at(l: Level, key: Seq<char>) -> Level {
    match member(l, key) {
        Some(t) => json_level(t),
        None => Level::Null,
    }
}

pub open spec fn as_text(l: Level) -> Option<Seq<char>> {
    match l {
        Level::Text(s) => Some(s),
        _ => None,
    }
}

/// The items of an array; none where it is no array.
pub open spec fn as_items(l: Level) -> Seq<Seq<char>> {
    match l {
        Level::Array(v) => v,
        _ => Seq::empty(),
    }
}

pub open spec fn as_number(l: Level) -> Option<u64> {
    match l {
        Level::Number(n) => n,
        _ => None,
    }
}

impl Json {
    /// The outer level of a JSON text.
    pub fn read(text: &str) -> (r: Json)
        ensures
            r@ == json_level(text@),
    {
        read_level(text)
    }

    /// The level of a member; null where there is none.
    pub fn at(&self, key: &str) -> (r: Json)
        ensures
            r@ == level_at(self@, key@),
    {
        if let Json::Object(v) = self {
            let ghost m = members(v@);
            let mut i: usize = 0;
            while i < v.len()
                invariant
                    i <= v@.len(),
                    m == members(v@),
                    self@ == Level::Object(m),
                    member(self@, key@) == member_from(m, key@, i as int),
                ensures
                    member(self@, key@) is None,
                decreases v@.len() - i,
            {
                if str_eq(v[i].0.as_str(), key) {
                    return read_level(v[i].1.as_str());
                }
                i += 1;
            }
        }
        Json::Null
    }

    pub fn into_text(self) -> (r: Option<String>)
        ensures
            opt_string(r) == as_text(self@),
    {
        match self {
            Json::Text(s) => Some(s),
            _ => None,
        }
    }

    pub fn into_items(self) -> (r: Vec<String>)
        ensures
            texts(r@) == as_items(self@),
    {
        match self {
            Json::Array(v) => v,
            _ => {
                let none: Vec<String> = Vec::new();
                assert(texts(none@) =~= Seq::empty());
                none
            },
        }
    }

    pub fn number(&self) -> (r: Option<u64>)
        ensures
            r == as_number(self@),
    {
        match self {
            Json::Number(n) => *n,
            _ => None,
        }
    }
}

} // verus!
