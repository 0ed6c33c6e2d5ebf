//! Logical and physical data types of the query engine.
use vstd::prelude::*;

verus! {

/// The logical kind of a value as seen by the binder and the user.
#[derive(Debug, Clone, Copy, Hash, PartialEq, Eq, Structural)]
pub enum LogicalTypeKind {
    Null,
    Any,
    Bool,
    Integer,
    Float,
    Date,
    LocalTime,
    LocalDateTime,
    ZonedTime,
    ZonedDateTime,
    Duration,
    String,
    TokenId,
    VirtualNode,
    VirtualRel,
    VirtualPath,
    Node,
    Rel,
    Path,
    List,
    Struct,
}

/// The storage layout that holds values of a logical type.
/// Nodes, relationships and paths are physical types because they are first class data in graph queries.
#[derive(Debug, Clone, Copy, Hash, PartialEq, Eq, Structural)]
pub enum PhysicalType {
    Variant,
    Bool,
    VirtualNode,
    VirtualRel,
    VirtualPath,
    Node,
    Rel,
    Path,
    List,
    Struct,
}

/// Extra information carried by the nested types.
#[derive(Debug)]
pub enum ExtraTypeInfo {
    List(Box<LogicalType>),
    Struct(Vec<(String, LogicalType)>),
}

#[derive(Debug)]
pub struct LogicalType {
    pub kind: LogicalTypeKind,
    pub physical_type: PhysicalType,
    pub extra: Option<ExtraTypeInfo>,
}

/// Mathematical model of a logical type.
pub struct TypeView {
    pub kind: LogicalTypeKind,
    pub physical_type: PhysicalType,
    pub extra: Option<ExtraView>,
}

/// Mathematical model of the extra information of a nested type.
pub enum ExtraView {
    List(Box<TypeView>),
    Struct(Seq<(Seq<char>, TypeView)>),
}

/// The physical type that stores values of the given kind.
pub open spec fn kind_physical_type(kind: LogicalTypeKind) -> PhysicalType {
    match kind {
        LogicalTypeKind::Null | LogicalTypeKind::Bool => PhysicalType::Bool,
        LogicalTypeKind::Integer
        | LogicalTypeKind::Float
        | LogicalTypeKind::Date
        | LogicalTypeKind::LocalTime
        | LogicalTypeKind::LocalDateTime
        | LogicalTypeKind::ZonedTime
        | LogicalTypeKind::ZonedDateTime
        | LogicalTypeKind::Duration
        | LogicalTypeKind::String
        | LogicalTypeKind::TokenId
        | LogicalTypeKind::Any => PhysicalType::Variant,
        LogicalTypeKind::VirtualNode => PhysicalType::VirtualNode,
        LogicalTypeKind::VirtualRel => PhysicalType::VirtualRel,
        LogicalTypeKind::Node => PhysicalType::Node,
        LogicalTypeKind::Rel => PhysicalType::Rel,
        LogicalTypeKind::Path => PhysicalType::Path,
        LogicalTypeKind::VirtualPath => PhysicalType::VirtualPath,
        LogicalTypeKind::List => PhysicalType::List,
        LogicalTypeKind::Struct => PhysicalType::Struct,
    }
}

impl LogicalType {
    pub open spec fn model(self) -> TypeView
        decreases self,
    {
        TypeView {
            kind: self.kind,
            physical_type: self.physical_type,
            extra: match self.extra {
                None => None,
                Some(ExtraTypeInfo::List(inner)) => Some(ExtraView::List(Box::new((*inner).model()))),
                Some(ExtraTypeInfo::Struct(fields)) => Some(ExtraView::Struct(fields_model(fields@))),
            },
        }
    }
}

/// Model of the fields of a struct type, in order.
pub open spec fn fields_model(fields: Seq<(String, LogicalType)>) -> Seq<(Seq<char>, TypeView)>
    decreases fields,
{
    if fields.len() == 0 {
        Seq::empty()
    } else {
        fields_model(fields.drop_last()).push((fields.last().0@, fields.last().1.model()))
    }
}

impl View for LogicalType {
    type V = TypeView;

    open spec fn view(&self) -> TypeView {
        self.model()
    }
}


/// A type is well formed when its physical type is the one of its kind and exactly the nested kinds
/// carry the matching extra information, all the way down.
pub open spec fn well_formed(v: TypeView) -> bool
    decreases v,
{
    &&& v.physical_type == kind_physical_type(v.kind)
    &&& match v.extra {
        None => v.kind != LogicalTypeKind::List && v.kind != LogicalTypeKind::Struct,
        Some(ExtraView::List(inner)) => v.kind == LogicalTypeKind::List && well_formed(*inner),
        Some(ExtraView::Struct(fields)) => v.kind == LogicalTypeKind::Struct && fields_well_formed(fields),
    }
}

pub open spec fn fields_well_formed(fields: Seq<(Seq<char>, TypeView)>) -> bool
    decreases fields,
{
    if fields.len() == 0 {
        true
    } else {
        fields_well_formed(fields.drop_last()) && well_formed(fields.last().1)
    }
}

impl LogicalType {
    pub open spec fn wf(&self) -> bool {
        well_formed(self@)
    }
}


pub proof fn lemma_fields_model(fields: Seq<(String, LogicalType)>)
    ensures
        fields_model(fields).len() == fields.len(),
        forall|i: int|
            0 <= i < fields.len() ==> #[trigger] fields_model(fields)[i] == (
            fields[i].0@,
            fields[i].1@,
        ),
    decreases fields.len(),
{
    if fields.len() > 0 {
        lemma_fields_model(fields.drop_last());
    }
}

pub proof fn lemma_fields_well_formed(fields: Seq<(Seq<char>, TypeView)>)
    ensures
        fields_well_formed(fields) <==> forall|i: int|
            0 <= i < fields.len() ==> well_formed(#[trigger] fields[i].1),
    decreases fields.len(),
{
    if fields.len() > 0 {
        lemma_fields_well_formed(fields.drop_last());
        assert forall|i: int| 0 <= i < fields.len() - 1 implies fields.drop_last()[i] == fields[i] by {}
    }
}

impl LogicalType {
    /// The physical type of a kind.
    pub fn physical_type(kind: LogicalTypeKind) -> (r: PhysicalType)
        ensures
            r == kind_physical_type(kind),
    {
        match kind {
            LogicalTypeKind::Null | LogicalTypeKind::Bool => PhysicalType::Bool,
            LogicalTypeKind::Integer
            | LogicalTypeKind::Float
            | LogicalTypeKind::Date
            | LogicalTypeKind::LocalTime
            | LogicalTypeKind::LocalDateTime
            | LogicalTypeKind::ZonedTime
            | LogicalTypeKind::ZonedDateTime
            | LogicalTypeKind::Duration
            | LogicalTypeKind::String
            | LogicalTypeKind::TokenId
            | LogicalTypeKind::Any => PhysicalType::Variant,
            LogicalTypeKind::VirtualNode => PhysicalType::VirtualNode,
            LogicalTypeKind::VirtualRel => PhysicalType::VirtualRel,
            LogicalTypeKind::Node => PhysicalType::Node,
            LogicalTypeKind::Rel => PhysicalType::Rel,
            LogicalTypeKind::Path => PhysicalType::Path,
            LogicalTypeKind::VirtualPath => PhysicalType::VirtualPath,
            LogicalTypeKind::List => PhysicalType::List,
            LogicalTypeKind::Struct => PhysicalType::Struct,
        }
    }

    /// The type of a kind without nested information, such as `Integer` or `Node`.
    pub fn simple(kind: LogicalTypeKind) -> (r: LogicalType)
        requires
            kind != LogicalTypeKind::List,
            kind != LogicalTypeKind::Struct,
        ensures
            r@ == (TypeView { kind, physical_type: kind_physical_type(kind), extra: None }),
            r.wf(),
    {
        LogicalType { kind, physical_type: Self::physical_type(kind), extra: None }
    }

    pub fn new_list(inner: LogicalType) -> (r: LogicalType)
        ensures
            r@ == (TypeView {
                kind: LogicalTypeKind::List,
                physical_type: PhysicalType::List,
                extra: Some(ExtraView::List(Box::new(inner@))),
            }),
            inner.wf() ==> r.wf(),
    {
        LogicalType {
            kind: LogicalTypeKind::List,
            physical_type: Self::physical_type(LogicalTypeKind::List),
            extra: Some(ExtraTypeInfo::List(Box::new(inner))),
        }
    }

    pub fn new_struct(fields: Vec<(String, LogicalType)>) -> (r: LogicalType)
        ensures
            r@ == (TypeView {
                kind: LogicalTypeKind::Struct,
                physical_type: PhysicalType::Struct,
                extra: Some(ExtraView::Struct(fields_model(fields@))),
            }),
            (forall|i: int| 0 <= i < fields.len() ==> (#[trigger] fields@[i]).1.wf()) ==> r.wf(),
    {
        proof {
            lemma_fields_model(fields@);
            lemma_fields_well_formed(fields_model(fields@));
            if forall|i: int| 0 <= i < fields.len() ==> (#[trigger] fields@[i]).1.wf() {
                assert forall|i: int| 0 <= i < fields_model(fields@).len() implies well_formed(
                    #[trigger] fields_model(fields@)[i].1,
                ) by {
                    assert(fields@[i].1.wf());
                }
            }
        }
        LogicalType {
            kind: LogicalTypeKind::Struct,
            physical_type: Self::physical_type(LogicalTypeKind::Struct),
            extra: Some(ExtraTypeInfo::Struct(fields)),
        }
    }

    pub fn is_node(&self) -> (r: bool)
        ensures
            r == (self.kind == LogicalTypeKind::Node || self.kind == LogicalTypeKind::VirtualNode),
    {
        self.kind == LogicalTypeKind::Node || self.kind == LogicalTypeKind::VirtualNode
    }

    pub fn is_rel(&self) -> (r: bool)
        ensures
            r == (self.kind == LogicalTypeKind::Rel || self.kind == LogicalTypeKind::VirtualRel),
    {
        self.kind == LogicalTypeKind::Rel || self.kind == LogicalTypeKind::VirtualRel
    }

    pub fn is_entity(&self) -> (r: bool)
        ensures
            r == (self.kind == LogicalTypeKind::Node || self.kind == LogicalTypeKind::VirtualNode
                || self.kind == LogicalTypeKind::Rel || self.kind == LogicalTypeKind::VirtualRel),
    {
        self.is_node() || self.is_rel()
    }

    pub fn is_list(&self) -> (r: bool)
        ensures
            r == (self.kind == LogicalTypeKind::List),
    {
        self.kind == LogicalTypeKind::List
    }

    pub fn is_struct(&self) -> (r: bool)
        ensures
            r == (self.kind == LogicalTypeKind::Struct),
    {
        self.kind == LogicalTypeKind::Struct
    }

    /// The element type of a list type, or `None` for a type that carries no list information.
    pub fn as_list(&self) -> (r: Option<&LogicalType>)
        ensures
            match self.extra {
                Some(ExtraTypeInfo::List(inner)) => r == Some(&*inner),
                _ => r is None,
            },
    {
        match &self.extra {
            Some(ExtraTypeInfo::List(inner)) => Some(&**inner),
            _ => None,
        }
    }

    /// The fields of a struct type, or `None` for a type that carries no struct information.
    pub fn as_struct(&self) -> (r: Option<&Vec<(String, LogicalType)>>)
        ensures
            match self.extra {
                Some(ExtraTypeInfo::Struct(fields)) => r == Some(&fields),
                _ => r is None,
            },
    {
        match &self.extra {
            Some(ExtraTypeInfo::Struct(fields)) => Some(fields),
            _ => None,
        }
    }
}


impl LogicalType {
    /// A copy of this type, nested information included.
    pub fn duplicate(&self) -> (r: LogicalType)
        ensures
            r@ == self@,
        decreases self,
    {
        let extra = match &self.extra {
            None => None,
            Some(ExtraTypeInfo::List(inner)) => Some(ExtraTypeInfo::List(Box::new((**inner).duplicate()))),
            Some(ExtraTypeInfo::Struct(fields)) => {
                let mut out: Vec<(String, LogicalType)> = Vec::new();
                let mut i: usize = 0;
                while i < fields.len()
                    invariant
                        i <= fields.len(),
                        out.len() == i,
                        self.extra == Some(ExtraTypeInfo::Struct(*fields)),
                        forall|j: int| 0 <= j < i ==> (#[trigger] out@[j]).0@ == fields@[j].0@ && out@[j].1@ == fields@[j].1@,
                    decreases fields.len() - i,
                {
                    proof {
                        broadcast use vstd::std_specs::vec::axiom_vec_decreases_to_view;
                        broadcast use vstd::seq::axiom_seq_index_decreases;
                        assert(decreases_to!(*self => self.extra));
                        assert(decreases_to!(self.extra => self.extra->0));
                        assert(self.extra->0 is Struct);
                        assert((self.extra->0)->Struct_0 == *fields);
                        assert(decreases_to!(self.extra->0 => (self.extra->0)->Struct_0));
                        assert(decreases_to!(*fields => fields@));
                        assert(decreases_to!(fields@[i as int] => fields@[i as int].1));
                        assert(decreases_to!(fields@ => fields@[i as int]));
                        assert(decreases_to!(*self => fields@[i as int].1));
                    }
                    let name = fields[i].0.clone();
                    let ty = fields[i].1.duplicate();
                    out.push((name, ty));
                    i = i + 1;
                }
                proof {
                    lemma_fields_model(out@);
                    lemma_fields_model(fields@);
                    assert(fields_model(out@) =~= fields_model(fields@));
                }
                Some(ExtraTypeInfo::Struct(out))
            },
        };
        LogicalType { kind: self.kind, physical_type: self.physical_type, extra }
    }
}


impl LogicalType {
    /// Whether two types are equal, nested information included.
    pub fn same_as(&self, other: &LogicalType) -> (r: bool)
        ensures
            r == (self@ == other@),
        decreases self,
    {
        if self.kind != other.kind || self.physical_type != other.physical_type {
            return false;
        }
        match (&self.extra, &other.extra) {
            (None, None) => true,
            (Some(ExtraTypeInfo::List(a)), Some(ExtraTypeInfo::List(b))) => {
                (**a).same_as(&**b)
            },
            (Some(ExtraTypeInfo::Struct(fa)), Some(ExtraTypeInfo::Struct(fb))) => {
                proof {
                    lemma_fields_model(fa@);
                    lemma_fields_model(fb@);
                }
                if fa.len() != fb.len() {
                    return false;
                }
                let mut i: usize = 0;
                while i < fa.len()
                    invariant
                        i <= fa.len(),
                        fa.len() == fb.len(),
                        self.extra == Some(ExtraTypeInfo::Struct(*fa)),
                        other.extra == Some(ExtraTypeInfo::Struct(*fb)),
                        fields_model(fa@).len() == fa.len(),
                        fields_model(fb@).len() == fb.len(),
                        forall|k: int| 0 <= k < fa.len() ==> #[trigger] fields_model(fa@)[k] == (fa@[k].0@, fa@[k].1@),
                        forall|k: int| 0 <= k < fb.len() ==> #[trigger] fields_model(fb@)[k] == (fb@[k].0@, fb@[k].1@),
                        forall|j: int| 0 <= j < i ==> #[trigger] fields_model(fa@)[j] == fields_model(fb@)[j],
                    decreases fa.len() - i,
                {
                    proof {
                        broadcast use vstd::std_specs::vec::axiom_vec_decreases_to_view;
                        broadcast use vstd::seq::axiom_seq_index_decreases;
                        assert(decreases_to!(*self => self.extra));
                        assert(decreases_to!(self.extra => self.extra->0));
                        assert(decreases_to!(self.extra->0 => (self.extra->0)->Struct_0));
                        assert(decreases_to!(*fa => fa@));
                        assert(decreases_to!(fa@ => fa@[i as int]));
                        assert(decreases_to!(fa@[i as int] => fa@[i as int].1));
                    }
                    if fa[i].0 != fb[i].0 {
                        assert(fields_model(fa@)[i as int] != fields_model(fb@)[i as int]);
                        return false;
                    }
                    if !fa[i].1.same_as(&fb[i].1) {
                        assert(fields_model(fa@)[i as int] != fields_model(fb@)[i as int]);
                        return false;
                    }
                    i = i + 1;
                }
                assert(fields_model(fa@) =~= fields_model(fb@));
                true
            },
            _ => false,
        }
    }
}


/// The type that a value of type `v` has once virtual entities are read from the store.
pub open spec fn materialized(v: TypeView) -> TypeView {
    match v.kind {
        LogicalTypeKind::VirtualNode => TypeView {
            kind: LogicalTypeKind::Node,
            physical_type: PhysicalType::Node,
            extra: None,
        },
        LogicalTypeKind::VirtualRel => TypeView {
            kind: LogicalTypeKind::Rel,
            physical_type: PhysicalType::Rel,
            extra: None,
        },
        _ => v,
    }
}

/// The short signature code of a type without nested information.
pub open spec fn kind_signature(kind: LogicalTypeKind) -> Seq<char> {
    match kind {
        LogicalTypeKind::Null => "null"@,
        LogicalTypeKind::Bool => "b"@,
        LogicalTypeKind::Integer => "i"@,
        LogicalTypeKind::Float => "f"@,
        LogicalTypeKind::Date => "d"@,
        LogicalTypeKind::LocalTime => "t"@,
        LogicalTypeKind::LocalDateTime => "dt"@,
        LogicalTypeKind::ZonedTime => "zt"@,
        LogicalTypeKind::ZonedDateTime => "zdt"@,
        LogicalTypeKind::Duration => "dur"@,
        LogicalTypeKind::String => "s"@,
        LogicalTypeKind::TokenId => "u16"@,
        LogicalTypeKind::Any => "any"@,
        LogicalTypeKind::VirtualNode => "vnode"@,
        LogicalTypeKind::VirtualRel => "vrel"@,
        LogicalTypeKind::VirtualPath => "vpath"@,
        LogicalTypeKind::Node => "node"@,
        LogicalTypeKind::Rel => "rel"@,
        LogicalTypeKind::Path => "path"@,
        LogicalTypeKind::List => "list"@,
        LogicalTypeKind::Struct => "struct"@,
    }
}

/// The signature of a type: `list(i)`, `struct(a: s, b: list(any))` and so on.
pub open spec fn signature_of(v: TypeView) -> Seq<char>
    decreases v,
{
    match v.extra {
        Some(ExtraView::List(inner)) => "list("@ + signature_of(*inner) + ")"@,
        Some(ExtraView::Struct(fields)) => "struct("@ + fields_signature(fields) + ")"@,
        None => kind_signature(v.kind),
    }
}

/// `name: signature` of each field, joined by `, `.
pub open spec fn fields_signature(fields: Seq<(Seq<char>, TypeView)>) -> Seq<char>
    decreases fields,
{
    if fields.len() == 0 {
        Seq::empty()
    } else if fields.len() == 1 {
        fields[0].0 + ": "@ + signature_of(fields[0].1)
    } else {
        fields_signature(fields.drop_last()) + ", "@ + fields.last().0 + ": "@ + signature_of(
            fields.last().1,
        )
    }
}

/// The display name of a kind.
pub open spec fn kind_name(kind: LogicalTypeKind) -> Seq<char> {
    match kind {
        LogicalTypeKind::Null => "Null"@,
        LogicalTypeKind::Any => "Any"@,
        LogicalTypeKind::Bool => "Bool"@,
        LogicalTypeKind::Integer => "Integer"@,
        LogicalTypeKind::Float => "Float"@,
        LogicalTypeKind::Date => "Date"@,
        LogicalTypeKind::LocalTime => "LocalTime"@,
        LogicalTypeKind::LocalDateTime => "LocalDateTime"@,
        LogicalTypeKind::ZonedTime => "ZonedTime"@,
        LogicalTypeKind::ZonedDateTime => "ZonedDateTime"@,
        LogicalTypeKind::Duration => "Duration"@,
        LogicalTypeKind::String => "String"@,
        LogicalTypeKind::TokenId => "TokenId"@,
        LogicalTypeKind::VirtualNode => "VirtualNode"@,
        LogicalTypeKind::VirtualRel => "VirtualRel"@,
        LogicalTypeKind::VirtualPath => "VirtualPath"@,
        LogicalTypeKind::Node => "Node"@,
        LogicalTypeKind::Rel => "Rel"@,
        LogicalTypeKind::Path => "Path"@,
        LogicalTypeKind::List => "List"@,
        LogicalTypeKind::Struct => "Struct"@,
    }
}

/// The display text of a type: `List(Integer)`, `Struct(a: String)` and so on.
pub open spec fn display_of(v: TypeView) -> Seq<char>
    decreases v,
{
    match v.extra {
        Some(ExtraView::List(inner)) => "List("@ + display_of(*inner) + ")"@,
        Some(ExtraView::Struct(fields)) => "Struct("@ + fields_display(fields) + ")"@,
        None => kind_name(v.kind),
    }
}

/// `name: display` of each field, joined by `, `.
pub open spec fn fields_display(fields: Seq<(Seq<char>, TypeView)>) -> Seq<char>
    decreases fields,
{
    if fields.len() == 0 {
        Seq::empty()
    } else if fields.len() == 1 {
        fields[0].0 + ": "@ + display_of(fields[0].1)
    } else {
        fields_display(fields.drop_last()) + ", "@ + fields.last().0 + ": "@ + display_of(
            fields.last().1,
        )
    }
}


proof fn lemma_fields_text_step(t: Seq<(Seq<char>, TypeView)>, i: int)
    requires
        0 <= i < t.len(),
    ensures
        fields_signature(t.take(i + 1)) == if i == 0 {
            t[0].0 + ": "@ + signature_of(t[0].1)
        } else {
            fields_signature(t.take(i)) + ", "@ + t[i].0 + ": "@ + signature_of(t[i].1)
        },
        fields_display(t.take(i + 1)) == if i == 0 {
            t[0].0 + ": "@ + display_of(t[0].1)
        } else {
            fields_display(t.take(i)) + ", "@ + t[i].0 + ": "@ + display_of(t[i].1)
        },
{
    assert(t.take(i + 1).drop_last() =~= t.take(i));
    assert(t.take(i + 1).last() == t[i]);
}

impl LogicalType {
    pub fn materialize(&self) -> (r: LogicalType)
        ensures
            r@ == materialized(self@),
            self.wf() ==> r.wf(),
    {
        match self.kind {
            LogicalTypeKind::VirtualNode => Self::simple(LogicalTypeKind::Node),
            LogicalTypeKind::VirtualRel => Self::simple(LogicalTypeKind::Rel),
            _ => self.duplicate(),
        }
    }

    fn kind_signature_text(kind: LogicalTypeKind) -> (r: String)
        ensures
            r@ == kind_signature(kind),
    {
        let s = match kind {
            LogicalTypeKind::Null => "null",
            LogicalTypeKind::Bool => "b",
            LogicalTypeKind::Integer => "i",
            LogicalTypeKind::Float => "f",
            LogicalTypeKind::Date => "d",
            LogicalTypeKind::LocalTime => "t",
            LogicalTypeKind::LocalDateTime => "dt",
            LogicalTypeKind::ZonedTime => "zt",
            LogicalTypeKind::ZonedDateTime => "zdt",
            LogicalTypeKind::Duration => "dur",
            LogicalTypeKind::String => "s",
            LogicalTypeKind::TokenId => "u16",
            LogicalTypeKind::Any => "any",
            LogicalTypeKind::VirtualNode => "vnode",
            LogicalTypeKind::VirtualRel => "vrel",
            LogicalTypeKind::VirtualPath => "vpath",
            LogicalTypeKind::Node => "node",
            LogicalTypeKind::Rel => "rel",
            LogicalTypeKind::Path => "path",
            LogicalTypeKind::List => "list",
            LogicalTypeKind::Struct => "struct",
        };
        String::from_str(s)
    }

    /// The signature of this type, for example `list(i)` or `struct(name: s)`.
    pub fn signature(&self) -> (r: String)
        requires
            self.wf(),
        ensures
            r@ == signature_of(self@),
        decreases self,
    {
        match &self.extra {
            None => Self::kind_signature_text(self.kind),
            Some(ExtraTypeInfo::List(inner)) => {
                let mut out = String::from_str("list(");
                let s = (**inner).signature();
                out.append(s.as_str());
                out.append(")");
                out
            },
            Some(ExtraTypeInfo::Struct(fields)) => {
                proof {
                    lemma_fields_model(fields@);
                    lemma_fields_well_formed(fields_model(fields@));
                }
                let ghost t = fields_model(fields@);
                let mut out = String::new();
                let mut i: usize = 0;
                while i < fields.len()
                    invariant
                        i <= fields.len(),
                        self.extra == Some(ExtraTypeInfo::Struct(*fields)),
                        t == fields_model(fields@),
                        t.len() == fields.len(),
                        forall|k: int| 0 <= k < fields.len() ==> #[trigger] t[k] == (fields@[k].0@, fields@[k].1@),
                        forall|k: int| 0 <= k < t.len() ==> well_formed(#[trigger] t[k].1),
                        out@ == fields_signature(t.take(i as int)),
                    decreases fields.len() - i,
                {
                    proof {
                        broadcast use vstd::std_specs::vec::axiom_vec_decreases_to_view;
                        broadcast use vstd::seq::axiom_seq_index_decreases;
                        assert(decreases_to!(*self => self.extra));
                        assert(decreases_to!(self.extra => self.extra->0));
                        assert(decreases_to!(self.extra->0 => (self.extra->0)->Struct_0));
                        assert(decreases_to!(*fields => fields@));
                        assert(decreases_to!(fields@ => fields@[i as int]));
                        assert(decreases_to!(fields@[i as int] => fields@[i as int].1));
                        lemma_fields_text_step(t, i as int);
                        assert(well_formed(t[i as int].1));
                    }
                    if i > 0 {
                        out.append(", ");
                    }
                    out.append(fields[i].0.as_str());
                    out.append(": ");
                    let s = fields[i].1.signature();
                    out.append(s.as_str());
                    i = i + 1;
                }
                assert(t.take(fields.len() as int) =~= t);
                let mut r = String::from_str("struct(");
                r.append(out.as_str());
                r.append(")");
                r
            },
        }
    }
}

impl LogicalType {
    fn kind_name_text(kind: LogicalTypeKind) -> (r: String)
        ensures
            r@ == kind_name(kind),
    {
        let s = match kind {
            LogicalTypeKind::Null => "Null",
            LogicalTypeKind::Bool => "Bool",
            LogicalTypeKind::Integer => "Integer",
            LogicalTypeKind::Float => "Float",
            LogicalTypeKind::Date => "Date",
            LogicalTypeKind::LocalTime => "LocalTime",
            LogicalTypeKind::LocalDateTime => "LocalDateTime",
            LogicalTypeKind::ZonedTime => "ZonedTime",
            LogicalTypeKind::ZonedDateTime => "ZonedDateTime",
            LogicalTypeKind::Duration => "Duration",
            LogicalTypeKind::String => "String",
            LogicalTypeKind::TokenId => "TokenId",
            LogicalTypeKind::Any => "Any",
            LogicalTypeKind::VirtualNode => "VirtualNode",
            LogicalTypeKind::VirtualRel => "VirtualRel",
            LogicalTypeKind::VirtualPath => "VirtualPath",
            LogicalTypeKind::Node => "Node",
            LogicalTypeKind::Rel => "Rel",
            LogicalTypeKind::Path => "Path",
            LogicalTypeKind::List => "List",
            LogicalTypeKind::Struct => "Struct",
        };
        String::from_str(s)
    }

    /// The display text of this type, for example `List(Integer)` or `Struct(name: String)`.
    pub fn to_display_string(&self) -> (r: String)
        requires
            self.wf(),
        ensures
            r@ == display_of(self@),
        decreases self,
    {
        match &self.extra {
            None => Self::kind_name_text(self.kind),
            Some(ExtraTypeInfo::List(inner)) => {
                let mut out = String::from_str("List(");
                let s = (**inner).to_display_string();
                out.append(s.as_str());
                out.append(")");
                out
            },
            Some(ExtraTypeInfo::Struct(fields)) => {
                proof {
                    lemma_fields_model(fields@);
                    lemma_fields_well_formed(fields_model(fields@));
                }
                let ghost t = fields_model(fields@);
                let mut out = String::new();
                let mut i: usize = 0;
                while i < fields.len()
                    invariant
                        i <= fields.len(),
                        self.extra == Some(ExtraTypeInfo::Struct(*fields)),
                        t == fields_model(fields@),
                        t.len() == fields.len(),
                        forall|k: int| 0 <= k < fields.len() ==> #[trigger] t[k] == (fields@[k].0@, fields@[k].1@),
                        forall|k: int| 0 <= k < t.len() ==> well_formed(#[trigger] t[k].1),
                        out@ == fields_display(t.take(i as int)),
                    decreases fields.len() - i,
                {
                    proof {
                        broadcast use vstd::std_specs::vec::axiom_vec_decreases_to_view;
                        broadcast use vstd::seq::axiom_seq_index_decreases;
                        assert(decreases_to!(*self => self.extra));
                        assert(decreases_to!(self.extra => self.extra->0));
                        assert(decreases_to!(self.extra->0 => (self.extra->0)->Struct_0));
                        assert(decreases_to!(*fields => fields@));
                        assert(decreases_to!(fields@ => fields@[i as int]));
                        assert(decreases_to!(fields@[i as int] => fields@[i as int].1));
                        lemma_fields_text_step(t, i as int);
                        assert(well_formed(t[i as int].1));
                    }
                    if i > 0 {
                        out.append(", ");
                    }
                    out.append(fields[i].0.as_str());
                    out.append(": ");
                    let s = fields[i].1.to_display_string();
                    out.append(s.as_str());
                    i = i + 1;
                }
                assert(t.take(fields.len() as int) =~= t);
                let mut r = String::from_str("Struct(");
                r.append(out.as_str());
                r.append(")");
                r
            },
        }
    }
}

/// Materializing twice is materializing once, and a materialized type is no virtual entity.
pub proof fn law_materialize_idempotent(v: TypeView)
    ensures
        materialized(materialized(v)) == materialized(v),
        materialized(v).kind != LogicalTypeKind::VirtualNode,
        materialized(v).kind != LogicalTypeKind::VirtualRel,
{
}

} // verus!
