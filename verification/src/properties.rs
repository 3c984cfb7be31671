//! Typed properties attached to maps, layers, tiles and objects.
use vstd::prelude::*;

use crate::error::Error;
use crate::number::{i32_value, parse_i32};
use crate::text::same_text;

verus! {

/// One `<property name=".." type=".." value=".."/>` element as read from a map
/// file; `typ` is `string` where the file leaves it out.
pub struct PropertyXml {
    pub name: String,
    pub typ: String,
    pub value: String,
}

/// A `<properties>` element: its properties in document order.
pub struct PropertiesXml {
    pub property: Vec<PropertyXml>,
}

/// The type that a property has when the file does not give one.
pub fn default_type() -> (r: String)
    ensures
        r@ == seq!['s', 't', 'r', 'i', 'n', 'g'],
{
    let r = "string".to_owned();
    proof {
        reveal_strlit("string");
    }
    r
}

/// A typed property value.
#[derive(Debug)]
pub enum PropertyValue {
    Int(i32),
    String(String),
    Bool(bool),
}

/// A property value as the contracts see it.
pub enum PropertyView {
    Int(i32),
    Text(Seq<char>),
    Bool(bool),
}

impl View for PropertyValue {
    type V = PropertyView;

    open spec fn view(&self) -> PropertyView {
        match self {
            PropertyValue::Int(n) => PropertyView::Int(*n),
            PropertyValue::String(s) => PropertyView::Text(s@),
            PropertyValue::Bool(b) => PropertyView::Bool(*b),
        }
    }
}

impl PropertyValue {
    /// A copy of the value.
    pub fn duplicate(&self) -> (r: PropertyValue)
        ensures
            r@ == self@,
    {
        match self {
            PropertyValue::Int(n) => PropertyValue::Int(*n),
            PropertyValue::String(s) => PropertyValue::String(s.clone()),
            PropertyValue::Bool(b) => PropertyValue::Bool(*b),
        }
    }

    /// Reads the value of a property element: an `int` is a decimal `i32`,
    /// a `string` is the text itself, a `bool` is true exactly when the text
    /// is `true`.
    pub fn from_xml(xml: &PropertyXml) -> (r: Result<PropertyValue, Error>)
        ensures
            match property_of(xml.typ@, xml.value@) {
                Some(v) => r matches Ok(p) && p@ == v,
                None => r matches Err(e) && error_fits(xml.typ@, xml.value@, e),
            },
    {
        proof {
            reveal_strlit("int");
            reveal_strlit("string");
            reveal_strlit("bool");
            reveal_strlit("true");
            assert("int"@ =~= type_int());
            assert("string"@ =~= type_string());
            assert("bool"@ =~= type_bool());
            assert("true"@ =~= text_true());
        }
        if same_text(xml.typ.as_str(), "int") {
            match parse_i32(xml.value.as_str()) {
                Some(n) => Ok(PropertyValue::Int(n)),
                None => Err(Error::InvalidNumber(xml.value.clone())),
            }
        } else if same_text(xml.typ.as_str(), "string") {
            Ok(PropertyValue::String(xml.value.clone()))
        } else if same_text(xml.typ.as_str(), "bool") {
            Ok(PropertyValue::Bool(same_text(xml.value.as_str(), "true")))
        } else {
            Err(Error::InvalidPropertyType(xml.typ.clone()))
        }
    }
}

pub open spec fn type_int() -> Seq<char> {
    seq!['i', 'n', 't']
}

pub open spec fn type_string() -> Seq<char> {
    seq!['s', 't', 'r', 'i', 'n', 'g']
}

pub open spec fn type_bool() -> Seq<char> {
    seq!['b', 'o', 'o', 'l']
}

pub open spec fn text_true() -> Seq<char> {
    seq!['t', 'r', 'u', 'e']
}

/// The value of a property of type `typ` written as `value`, if it is valid.
pub open spec fn property_of(typ: Seq<char>, value: Seq<char>) -> Option<PropertyView> {
    if typ == type_int() {
        match i32_value(value) {
            Some(n) => Some(PropertyView::Int(n)),
            None => None,
        }
    } else if typ == type_string() {
        Some(PropertyView::Text(value))
    } else if typ == type_bool() {
        Some(PropertyView::Bool(value == text_true()))
    } else {
        None
    }
}

/// The error for an invalid property: a bad number for an `int`, an unknown type otherwise.
pub open spec fn error_fits(typ: Seq<char>, value: Seq<char>, e: Error) -> bool {
    if typ == type_int() {
        e matches Error::InvalidNumber(t) && t@ == value
    } else {
        e matches Error::InvalidPropertyType(t) && t@ == typ
    }
}

/// The map that a list of bindings makes, later bindings of a name
/// replacing earlier ones.
pub open spec fn bindings_map(s: Seq<(Seq<char>, PropertyView)>) -> Map<Seq<char>, PropertyView>
    decreases s.len(),
{
    if s.len() == 0 {
        Map::empty()
    } else {
        bindings_map(s.drop_last()).insert(s.last().0, s.last().1)
    }
}

/// Looking a name up in the map of a list of bindings finds its last binding.
pub proof fn lemma_bindings_lookup(s: Seq<(Seq<char>, PropertyView)>, k: Seq<char>, i: int)
    requires
        0 <= i < s.len(),
        s[i].0 == k,
        forall|j: int| i < j < s.len() ==> s[j].0 != k,
    ensures
        bindings_map(s).contains_key(k),
        bindings_map(s)[k] == s[i].1,
    decreases s.len(),
{
    if i < s.len() - 1 {
        lemma_bindings_lookup(s.drop_last(), k, i);
    }
}

/// A name bound nowhere in a list of bindings is not in its map.
pub proof fn lemma_bindings_absent(s: Seq<(Seq<char>, PropertyView)>, k: Seq<char>)
    requires
        forall|j: int| 0 <= j < s.len() ==> s[j].0 != k,
    ensures
        !bindings_map(s).contains_key(k),
    decreases s.len(),
{
    if s.len() > 0 {
        lemma_bindings_absent(s.drop_last(), k);
    }
}

/// Putting a binding in front of a list changes its map only where the
/// list does not bind that name.
pub proof fn lemma_bindings_prepend(x: (Seq<char>, PropertyView), t: Seq<(Seq<char>, PropertyView)>)
    ensures
        bindings_map(seq![x] + t) == (if bindings_map(t).contains_key(x.0) {
            bindings_map(t)
        } else {
            bindings_map(t).insert(x.0, x.1)
        }),
    decreases t.len(),
{
    if t.len() == 0 {
        assert(seq![x] + t =~= seq![x]);
        assert(seq![x].drop_last() =~= Seq::<(Seq<char>, PropertyView)>::empty());
        assert(bindings_map(seq![x].drop_last()) == Map::<Seq<char>, PropertyView>::empty());
        assert(seq![x].last() == x);
        assert(bindings_map(seq![x]) =~= Map::<Seq<char>, PropertyView>::empty().insert(x.0, x.1));
    } else {
        assert((seq![x] + t).drop_last() =~= seq![x] + t.drop_last());
        lemma_bindings_prepend(x, t.drop_last());
        assert(bindings_map(seq![x] + t) =~= (if bindings_map(t).contains_key(x.0) {
            bindings_map(t)
        } else {
            bindings_map(t).insert(x.0, x.1)
        }));
    }
}

/// Every property of the list has a valid value.
pub open spec fn all_valid(props: Seq<PropertyXml>) -> bool {
    forall|i: int| 0 <= i < props.len() ==> property_of(#[trigger] props[i].typ@, props[i].value@) is Some
}

/// The bindings that a list of valid properties makes.
pub open spec fn valid_bindings(props: Seq<PropertyXml>) -> Seq<(Seq<char>, PropertyView)> {
    props.map_values(|p: PropertyXml| (p.name@, property_of(p.typ@, p.value@).unwrap()))
}

/// Properties by name.
#[derive(Debug)]
pub struct PropertyMap {
    entries: Vec<(String, PropertyValue)>,
}

impl PropertyMap {
    pub closed spec fn bindings(self) -> Seq<(Seq<char>, PropertyView)> {
        self.entries@.map_values(|e: (String, PropertyValue)| (e.0@, e.1@))
    }
}

impl View for PropertyMap {
    type V = Map<Seq<char>, PropertyView>;

    closed spec fn view(&self) -> Map<Seq<char>, PropertyView> {
        bindings_map(self.bindings())
    }
}

impl PropertyMap {
    pub fn new() -> (r: Self)
        ensures
            r@ == Map::<Seq<char>, PropertyView>::empty(),
    {
        let r = PropertyMap { entries: Vec::new() };
        assert(r.bindings() =~= Seq::<(Seq<char>, PropertyView)>::empty());
        r
    }

    /// The position of the binding that `k` reads, if `k` has one.
    fn lookup(&self, k: &str) -> (r: Option<usize>)
        ensures
            match r {
                Some(i) => i < self.entries@.len() && self@.contains_key(k@) && self@[k@]
                    == self.entries@[i as int].1@ && self.entries@[i as int].0@ == k@,
                None => !self@.contains_key(k@),
            },
    {
        let ghost b = self.bindings();
        let mut i: usize = self.entries.len();
        while i > 0
            invariant
                i <= self.entries@.len(),
                b == self.bindings(),
                forall|j: int| i <= j < self.entries@.len() ==> b[j].0 != k@,
            decreases i,
        {
            let j = i - 1;
            if same_text(self.entries[j].0.as_str(), k) {
                proof {
                    lemma_bindings_lookup(b, k@, j as int);
                }
                return Some(j);
            }
            i = j;
        }
        proof {
            lemma_bindings_absent(b, k@);
        }
        None
    }

    /// Binds `k` to `v`, replacing any value it had.
    pub fn insert(&mut self, k: String, v: PropertyValue)
        ensures
            final(self)@ == old(self)@.insert(k@, v@),
    {
        let ghost b = self.bindings();
        self.entries.push((k, v));
        assert(self.bindings().drop_last() =~= b);
    }

    /// Gives every property that `other` has and `self` lacks its value in `other`.
    pub fn set_defaults(&mut self, other: &PropertyMap)
        ensures
            final(self)@ == other@.union_prefer_right(old(self)@),
    {
        let ghost start = self@;
        let ghost ob = other.bindings();
        let n = other.entries.len();
        let mut i: usize = n;
        assert(ob.subrange(n as int, n as int) =~= Seq::<(Seq<char>, PropertyView)>::empty());
        assert(self@ =~= bindings_map(ob.subrange(i as int, n as int)).union_prefer_right(start));
        while i > 0
            invariant
                i <= n,
                n == other.entries@.len(),
                ob == other.bindings(),
                self@ == bindings_map(ob.subrange(i as int, n as int)).union_prefer_right(start),
            decreases i,
        {
            let j = i - 1;
            let ghost tail = ob.subrange(i as int, n as int);
            assert(ob.subrange(j as int, n as int) =~= seq![ob[j as int]] + tail);
            proof {
                lemma_bindings_prepend(ob[j as int], tail);
            }
            if self.lookup(other.entries[j].0.as_str()).is_none() {
                let k = other.entries[j].0.clone();
                let v = other.entries[j].1.duplicate();
                self.insert(k, v);
            }
            assert(self@ =~= bindings_map(ob.subrange(j as int, n as int)).union_prefer_right(start));
            i = j;
        }
        assert(ob.subrange(0, n as int) =~= ob);
    }

    /// The map of a `<properties>` element: each property read as
    /// `PropertyValue::from_xml` reads it, a later property of a name
    /// replacing an earlier one; the first invalid property gives the error.
    pub fn from_xml(value: &PropertiesXml) -> (r: Result<PropertyMap, Error>)
        ensures
            all_valid(value.property@) ==> (r matches Ok(m) && m@ == bindings_map(
                valid_bindings(value.property@),
            )),
            !all_valid(value.property@) ==> (r matches Err(e) && exists|i: int|
                0 <= i < value.property@.len() && property_of(
                    value.property@[i].typ@,
                    value.property@[i].value@,
                ) is None && error_fits(value.property@[i].typ@, value.property@[i].value@, e)
                    && forall|j: int|
                    0 <= j < i ==> property_of(
                        #[trigger] value.property@[j].typ@,
                        value.property@[j].value@,
                    ) is Some),
    {
        let props = &value.property;
        let mut map = PropertyMap::new();
        let mut i: usize = 0;
        while i < props.len()
            invariant
                props@ == value.property@,
                i <= props@.len(),
                forall|j: int|
                    0 <= j < i ==> property_of(#[trigger] props@[j].typ@, props@[j].value@) is Some,
                map@ == bindings_map(valid_bindings(props@.take(i as int))),
            decreases props.len() - i,
        {
            let v = PropertyValue::from_xml(&props[i]);
            match v {
                Err(e) => {
                    assert(property_of(props@[i as int].typ@, props@[i as int].value@) is None);
                    assert(!all_valid(value.property@));
                    assert(error_fits(value.property@[i as int].typ@, value.property@[i as int].value@, e));
                    return Err(e);
                },
                Ok(v) => {
                    let ghost vb = valid_bindings(props@.take(i + 1));
                    assert(vb.drop_last() =~= valid_bindings(props@.take(i as int)));
                    map.insert(props[i].name.clone(), v);
                },
            }
            i = i + 1;
        }
        assert(props@.take(i as int) =~= props@);
        Ok(map)
    }

    pub fn get_int(&self, k: &str) -> (r: Result<Option<i32>, Error>)
        ensures
            !self@.contains_key(k@) ==> r == Ok::<Option<i32>, Error>(None),
            self@.contains_key(k@) ==> match self@[k@] {
                PropertyView::Int(n) => r == Ok::<Option<i32>, Error>(Some(n)),
                _ => r matches Err(Error::PropertyNotInt(t)) && t@ == k@,
            },
    {
        match self.lookup(k) {
            None => Ok(None),
            Some(i) => match &self.entries[i].1 {
                PropertyValue::Int(n) => Ok(Some(*n)),
                _ => Err(Error::PropertyNotInt(k.to_owned())),
            },
        }
    }

    pub fn get_string(&self, k: &str) -> (r: Result<Option<&str>, Error>)
        ensures
            !self@.contains_key(k@) ==> r matches Ok(None),
            self@.contains_key(k@) ==> match self@[k@] {
                PropertyView::Text(t) => r matches Ok(Some(u)) && u@ == t,
                _ => r matches Err(Error::PropertyNotString(t)) && t@ == k@,
            },
    {
        match self.lookup(k) {
            None => Ok(None),
            Some(i) => match &self.entries[i].1 {
                PropertyValue::String(s) => Ok(Some(s.as_str())),
                _ => Err(Error::PropertyNotString(k.to_owned())),
            },
        }
    }

    pub fn get_bool(&self, k: &str) -> (r: Result<Option<bool>, Error>)
        ensures
            !self@.contains_key(k@) ==> r == Ok::<Option<bool>, Error>(None),
            self@.contains_key(k@) ==> match self@[k@] {
                PropertyView::Bool(b) => r == Ok::<Option<bool>, Error>(Some(b)),
                _ => r matches Err(Error::PropertyNotBool(t)) && t@ == k@,
            },
    {
        match self.lookup(k) {
            None => Ok(None),
            Some(i) => match &self.entries[i].1 {
                PropertyValue::Bool(b) => Ok(Some(*b)),
                _ => Err(Error::PropertyNotBool(k.to_owned())),
            },
        }
    }
}

impl Default for PropertyMap {
    fn default() -> (r: Self)
        ensures
            r@ == Map::<Seq<char>, PropertyView>::empty(),
    {
        Self::new()
    }
}

/// The boolean property `k`, or `d` where it is absent; `None` when it has another type.
pub open spec fn bool_or(m: Map<Seq<char>, PropertyView>, k: Seq<char>, d: bool) -> Option<bool> {
    if !m.contains_key(k) {
        Some(d)
    } else {
        match m[k] {
            PropertyView::Bool(b) => Some(b),
            _ => None,
        }
    }
}

/// The integer property `k`, if set; `None` when it has another type.
pub open spec fn int_opt(m: Map<Seq<char>, PropertyView>, k: Seq<char>) -> Option<Option<i32>> {
    if !m.contains_key(k) {
        Some(None)
    } else {
        match m[k] {
            PropertyView::Int(n) => Some(Some(n)),
            _ => None,
        }
    }
}

/// The text property `k`, if set; `None` when it has another type.
pub open spec fn text_opt(m: Map<Seq<char>, PropertyView>, k: Seq<char>) -> Option<Option<Seq<char>>> {
    if !m.contains_key(k) {
        Some(None)
    } else {
        match m[k] {
            PropertyView::Text(t) => Some(Some(t)),
            _ => None,
        }
    }
}

/// The text of an optional string.
pub open spec fn opt_text(s: Option<String>) -> Option<Seq<char>> {
    match s {
        Some(t) => Some(t@),
        None => None,
    }
}

impl PropertyMap {
    /// The boolean property `k`, or `d` where it is absent.
    pub fn bool_or(&self, k: &str, d: bool) -> (r: Result<bool, Error>)
        ensures
            match bool_or(self@, k@, d) {
                Some(b) => r == Ok::<bool, Error>(b),
                None => r matches Err(Error::PropertyNotBool(t)) && t@ == k@,
            },
    {
        match self.get_bool(k) {
            Ok(Some(b)) => Ok(b),
            Ok(None) => Ok(d),
            Err(e) => Err(e),
        }
    }

    /// The integer property `k`, if set.
    pub fn int_opt(&self, k: &str) -> (r: Result<Option<i32>, Error>)
        ensures
            match int_opt(self@, k@) {
                Some(v) => r == Ok::<Option<i32>, Error>(v),
                None => r matches Err(Error::PropertyNotInt(t)) && t@ == k@,
            },
    {
        self.get_int(k)
    }

    /// The text property `k`, if set, as an owned string.
    pub fn text_opt(&self, k: &str) -> (r: Result<Option<String>, Error>)
        ensures
            match text_opt(self@, k@) {
                Some(v) => r matches Ok(o) && opt_text(o) == v,
                None => r matches Err(Error::PropertyNotString(t)) && t@ == k@,
            },
    {
        match self.get_string(k) {
            Ok(Some(s)) => Ok(Some(s.to_owned())),
            Ok(None) => Ok(None),
            Err(e) => Err(e),
        }
    }
}

/// Defaults never replace a property that is already set, and every
/// property of the defaults is set afterwards.
pub proof fn set_defaults_keeps_own(own: Map<Seq<char>, PropertyView>, defaults: Map<Seq<char>, PropertyView>, k: Seq<char>)
    ensures
        own.contains_key(k) ==> defaults.union_prefer_right(own)[k] == own[k],
        defaults.contains_key(k) ==> defaults.union_prefer_right(own).contains_key(k),
        !own.contains_key(k) && defaults.contains_key(k) ==> defaults.union_prefer_right(own)[k] == defaults[k],
{
}

} // verus!
