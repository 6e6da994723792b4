use vstd::prelude::*;

verus! {

broadcast use vstd::std_specs::vec::axiom_vec_index_decreases;

/// A JSON number, as the document model carries it.
#[derive(Debug, Clone, PartialEq)]
pub enum Number {
    PosInt(u64),
    NegInt(i64),
    Float(String),
}

/// A structured resource document.
#[derive(Debug, PartialEq)]
pub enum Json {
    Null,
    Bool(bool),
    Num(Number),
    Str(String),
    Array(Vec<Json>),
    Object(Vec<(String, Json)>),
}

/// What a `Number` stands for.
pub ghost enum NumberModel {
    PosInt(nat),
    NegInt(int),
    Float(Seq<char>),
}

/// What a `Json` document stands for: texts as character sequences,
/// arrays and objects as sequences (object members in document order).
pub ghost enum JsonModel {
    Null,
    Bool(bool),
    Num(NumberModel),
    Str(Seq<char>),
    Array(Seq<JsonModel>),
    Object(Seq<(Seq<char>, JsonModel)>),
}

impl View for Number {
    type V = NumberModel;

    open spec fn view(&self) -> NumberModel {
        match self {
            Number::PosInt(n) => NumberModel::PosInt(*n as nat),
            Number::NegInt(n) => NumberModel::NegInt(*n as int),
            Number::Float(s) => NumberModel::Float(s@),
        }
    }
}

/// The model of a document.
pub open spec fn model(j: Json) -> JsonModel
    decreases j,
{
    match j {
        Json::Null => JsonModel::Null,
        Json::Bool(b) => JsonModel::Bool(b),
        Json::Num(n) => JsonModel::Num(n@),
        Json::Str(s) => JsonModel::Str(s@),
        Json::Array(v) => JsonModel::Array(
            Seq::new(v@.len(), |i: int| if 0 <= i < v@.len() { model(v@[i]) } else { JsonModel::Null }),
        ),
        Json::Object(v) => JsonModel::Object(
            Seq::new(v@.len(), |i: int|
                if 0 <= i < v@.len() { (v@[i].0@, model(v@[i].1)) } else { (Seq::empty(), JsonModel::Null) }),
        ),
    }
}

impl View for Json {
    type V = JsonModel;

    open spec fn view(&self) -> JsonModel {
        model(*self)
    }
}

/// The value of the first member named `k` among `es`.
pub open spec fn lookup(es: Seq<(Seq<char>, JsonModel)>, k: Seq<char>) -> Option<JsonModel>
    decreases es.len(),
{
    if es.len() == 0 {
        None
    } else {
        let earlier = lookup(es.drop_last(), k);
        if earlier is Some {
            earlier
        } else if es.last().0 == k {
            Some(es.last().1)
        } else {
            None
        }
    }
}

impl JsonModel {
    /// The member named `k`, where this is an object that has one.
    pub open spec fn field(self, k: Seq<char>) -> Option<JsonModel> {
        match self {
            JsonModel::Object(es) => lookup(es, k),
            _ => None,
        }
    }

    pub open spec fn text(self) -> Option<Seq<char>> {
        match self {
            JsonModel::Str(s) => Some(s),
            _ => None,
        }
    }

    pub open spec fn items(self) -> Option<Seq<JsonModel>> {
        match self {
            JsonModel::Array(a) => Some(a),
            _ => None,
        }
    }

    pub open spec fn members(self) -> Option<Seq<(Seq<char>, JsonModel)>> {
        match self {
            JsonModel::Object(es) => Some(es),
            _ => None,
        }
    }

    /// The value as an unsigned integer, where it is one.
    pub open spec fn unsigned(self) -> Option<nat> {
        match self {
            JsonModel::Num(NumberModel::PosInt(n)) => Some(n),
            _ => None,
        }
    }
}

pub open spec fn field_of(o: Option<JsonModel>, k: Seq<char>) -> Option<JsonModel> {
    match o {
        Some(m) => m.field(k),
        None => None,
    }
}

pub open spec fn text_of(o: Option<JsonModel>) -> Option<Seq<char>> {
    match o {
        Some(m) => m.text(),
        None => None,
    }
}

pub open spec fn items_of(o: Option<JsonModel>) -> Option<Seq<JsonModel>> {
    match o {
        Some(m) => m.items(),
        None => None,
    }
}

/// The models of a sequence of documents.
pub open spec fn views(v: Seq<Json>) -> Seq<JsonModel> {
    Seq::new(v.len(), |i: int| v[i]@)
}

/// The models of a sequence of object members.
pub open spec fn member_views(v: Seq<(String, Json)>) -> Seq<(Seq<char>, JsonModel)> {
    Seq::new(v.len(), |i: int| (v[i].0@, v[i].1@))
}

/// The model of an array is the models of its items.
pub proof fn lemma_array_view(v: Vec<Json>)
    ensures
        Json::Array(v)@ == JsonModel::Array(views(v@)),
{
    assert(Json::Array(v)@->Array_0 =~= views(v@));
}

/// The model of an object is the models of its members.
pub proof fn lemma_object_view(v: Vec<(String, Json)>)
    ensures
        Json::Object(v)@ == JsonModel::Object(member_views(v@)),
{
    assert(Json::Object(v)@->Object_0 =~= member_views(v@));
}

/// A member found in a prefix is the one found in the whole.
pub proof fn lemma_lookup_prefix(es: Seq<(Seq<char>, JsonModel)>, n: int, k: Seq<char>)
    requires
        0 <= n <= es.len(),
        lookup(es.subrange(0, n), k) is Some,
    ensures
        lookup(es, k) == lookup(es.subrange(0, n), k),
    decreases es.len() - n,
{
    if n < es.len() {
        lemma_lookup_step(es, n, k);
        lemma_lookup_prefix(es, n + 1, k);
    } else {
        lemma_prefix_whole(es);
    }
}

/// Looking one member further.
pub proof fn lemma_lookup_step(es: Seq<(Seq<char>, JsonModel)>, i: int, k: Seq<char>)
    requires
        0 <= i < es.len(),
    ensures
        lookup(es.subrange(0, i + 1), k) == (if lookup(es.subrange(0, i), k) is Some {
            lookup(es.subrange(0, i), k)
        } else if es[i].0 == k {
            Some(es[i].1)
        } else {
            None
        }),
{
    assert(es.subrange(0, i + 1).drop_last() =~= es.subrange(0, i));
}

pub proof fn lemma_prefix_whole<A>(s: Seq<A>)
    ensures
        s.subrange(0, s.len() as int) == s,
{
    assert(s.subrange(0, s.len() as int) =~= s);
}

impl Json {
    /// The member named `key`, where this is an object that has one.
    pub fn get(&self, key: &str) -> (r: Option<&Json>)
        ensures
            r matches Some(v) ==> self@.field(key@) == Some(v@),
            r is None ==> self@.field(key@) is None,
    {
        match self {
            Json::Object(es) => {
                let ghost m = member_views(es@);
                proof { lemma_object_view(*es); }
                let mut i: usize = 0;
                while i < es.len()
                    invariant
                        self@ == JsonModel::Object(m),
                        m == member_views(es@),
                        i <= es@.len(),
                        lookup(m.subrange(0, i as int), key@) is None,
                    decreases es@.len() - i,
                {
                    proof { lemma_lookup_step(m, i as int, key@); }
                    if crate::text::same_text(es[i].0.as_str(), key) {
                        proof {
                            lemma_lookup_prefix(m, i as int + 1, key@);
                        }
                        return Some(&es[i].1);
                    }
                    i = i + 1;
                }
                proof { lemma_prefix_whole(m); }
                None
            },
            _ => None,
        }
    }

    /// The text, where this is a string.
    pub fn as_str(&self) -> (r: Option<&String>)
        ensures
            r matches Some(s) ==> self@.text() == Some(s@),
            r is None ==> self@.text() is None,
    {
        match self {
            Json::Str(s) => Some(s),
            _ => None,
        }
    }

    /// The items, where this is an array.
    pub fn as_array(&self) -> (r: Option<&Vec<Json>>)
        ensures
            r matches Some(v) ==> self@.items() == Some(views(v@)),
            r is None ==> self@.items() is None,
    {
        match self {
            Json::Array(v) => {
                proof { lemma_array_view(*v); }
                Some(v)
            },
            _ => None,
        }
    }

    /// The value, where this is a boolean.
    pub fn as_bool(&self) -> (r: Option<bool>)
        ensures
            r matches Some(b) ==> self@ == JsonModel::Bool(b),
            r is None ==> !(self@ is Bool),
    {
        match self {
            Json::Bool(b) => Some(*b),
            _ => None,
        }
    }

    /// The value, where this is an unsigned integer.
    pub fn as_u64(&self) -> (r: Option<u64>)
        ensures
            r matches Some(n) ==> self@.unsigned() == Some(n as nat),
            r is None ==> self@.unsigned() is None,
    {
        match self {
            Json::Num(Number::PosInt(n)) => Some(*n),
            _ => None,
        }
    }

    /// A copy of this document.
    pub fn copy(&self) -> (r: Json)
        ensures
            r@ == self@,
        decreases self,
    {
        match self {
            Json::Null => Json::Null,
            Json::Bool(b) => Json::Bool(*b),
            Json::Num(Number::PosInt(n)) => Json::Num(Number::PosInt(*n)),
            Json::Num(Number::NegInt(n)) => Json::Num(Number::NegInt(*n)),
            Json::Num(Number::Float(s)) => Json::Num(Number::Float(s.clone())),
            Json::Str(s) => Json::Str(s.clone()),
            Json::Array(v) => {
                let mut out: Vec<Json> = Vec::new();
                let mut i: usize = 0;
                while i < v.len()
                    invariant
                        *self == Json::Array(*v),
                        i <= v@.len(),
                        out@.len() == i,
                        forall|j: int| 0 <= j < i ==> out@[j]@ == v@[j]@,
                    decreases v@.len() - i,
                {
                    proof {
                        assert(decreases_to!(*self => (*self)->Array_0));
                        assert(decreases_to!(*v => v@[i as int]));
                    }
                    let c = v[i].copy();
                    out.push(c);
                    i = i + 1;
                }
                let r = Json::Array(out);
                proof {
                    lemma_array_view(out);
                    lemma_array_view(*v);
                    assert(views(out@) =~= views(v@));
                }
                r
            },
            Json::Object(es) => {
                let mut out: Vec<(String, Json)> = Vec::new();
                let mut i: usize = 0;
                while i < es.len()
                    invariant
                        *self == Json::Object(*es),
                        i <= es@.len(),
                        out@.len() == i,
                        forall|j: int| 0 <= j < i ==> out@[j].0@ == es@[j].0@ && out@[j].1@ == es@[j].1@,
                    decreases es@.len() - i,
                {
                    proof {
                        assert(decreases_to!(*self => (*self)->Object_0));
                        assert(decreases_to!(*es => es@[i as int]));
                        assert(decreases_to!(es@[i as int] => es@[i as int].1));
                    }
                    let c = es[i].1.copy();
                    out.push((es[i].0.clone(), c));
                    i = i + 1;
                }
                let r = Json::Object(out);
                proof {
                    lemma_object_view(out);
                    lemma_object_view(*es);
                    assert(member_views(out@) =~= member_views(es@));
                }
                r
            },
        }
    }
}


/// The name that a resource document gives itself in `metadata.name`.
pub open spec fn resource_name(d: JsonModel) -> Option<Seq<char>> {
    text_of(field_of(d.field("metadata"@), "name"@))
}

/// The namespace that a resource document names in `metadata.namespace`.
pub open spec fn resource_namespace(d: JsonModel) -> Option<Seq<char>> {
    text_of(field_of(d.field("metadata"@), "namespace"@))
}

/// The text at `outer.inner` in `d`.
pub fn text_at<'a>(d: &'a Json, outer: &str, inner: &str) -> (r: Option<&'a String>)
    ensures
        r matches Some(s) ==> text_of(field_of(d@.field(outer@), inner@)) == Some(s@),
        r is None ==> text_of(field_of(d@.field(outer@), inner@)) is None,
{
    match d.get(outer) {
        Some(o) => match o.get(inner) {
            Some(v) => v.as_str(),
            None => None,
        },
        None => None,
    }
}

/// The resource's `metadata.name`.
pub fn name_of(d: &Json) -> (r: Option<&String>)
    ensures
        r matches Some(s) ==> resource_name(d@) == Some(s@),
        r is None ==> resource_name(d@) is None,
{
    text_at(d, "metadata", "name")
}

/// The resource's `metadata.namespace`.
pub fn namespace_of(d: &Json) -> (r: Option<&String>)
    ensures
        r matches Some(s) ==> resource_namespace(d@) == Some(s@),
        r is None ==> resource_namespace(d@) is None,
{
    text_at(d, "metadata", "namespace")
}

} // verus!
