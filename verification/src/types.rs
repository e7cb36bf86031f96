//! The type language: regions, capabilities, types, and the entries of the
//! constructor stack. Every value here is an immutable tree, and two of them
//! are equal exactly when they are built alike.

use vstd::prelude::*;

verus! {

/// The name of a region inside one function.
#[derive(Clone, Copy, Debug, PartialEq, Eq, Structural)]
pub enum Region {
    /// The heap.
    Heap,
    /// The region that the `RegionOp` at this offset of the function declares.
    Declared(usize),
    /// A region that the function created; regions are numbered from zero in
    /// the order in which the function creates them.
    Local(usize),
}

/// What has become of the capability that a function got with a region it
/// created.
#[derive(Clone, Copy, Debug, PartialEq, Eq, Structural)]
pub enum CapState {
    /// The function holds it.
    Held,
    /// An operation took it.
    Consumed,
    /// The region has been freed.
    Freed,
}

/// The access that a capability grants to the contents of its region.
#[derive(Debug, PartialEq, Eq)]
pub enum Rights {
    /// No access: a mere reference to the region.
    Handle,
    /// Reading and writing; may be used any number of times.
    ReadWrite,
    /// Exclusive reading and writing; used up by its first use.
    Unique,
    /// What either of two capabilities grants.
    Both(Box<Rights>, Box<Rights>),
}

/// A capability: rights over one region.
#[derive(Debug, PartialEq, Eq)]
pub struct Capability {
    pub region: Region,
    pub rights: Rights,
}

/// The kinds of quantifier scope, each named after the opcode that opens it.
#[derive(Clone, Copy, Debug, PartialEq, Eq, Structural)]
pub enum Quantifier {
    All,
    Exists,
    Forall,
    RgnPoly,
}

/// A type.
#[derive(Debug, PartialEq, Eq)]
pub enum Type {
    I32,
    Word32,
    Word64,
    Ptr,
    Tuple(TypeList),
    Array(Box<Type>),
    Func(Box<FuncType>),
    /// The entries of a closed quantifier scope, lowest first.
    Quantified(Quantifier, EntryList),
}

/// The type of a function: what it takes, and the capability that calling it
/// requires.
#[derive(Debug, PartialEq, Eq)]
pub struct FuncType {
    pub params: TypeList,
    pub requirement: Capability,
}

/// A list of types.
#[derive(Debug, PartialEq, Eq)]
pub enum TypeList {
    Nil,
    Cons(Box<Type>, Box<TypeList>),
}

/// What the constructor stack holds.
#[derive(Debug, PartialEq, Eq)]
pub enum Entry {
    Region(Region),
    Cap(Capability),
    Type(Type),
    /// An open quantifier scope.
    Marker(Quantifier),
}

/// A list of constructor-stack entries.
#[derive(Debug, PartialEq, Eq)]
pub enum EntryList {
    Nil,
    Cons(Box<Entry>, Box<EntryList>),
}

/// The fields of an allocated tuple: the type of each, and whether it has
/// been initialised.
#[derive(Debug, PartialEq, Eq)]
pub enum FieldList {
    Nil,
    Cons(Box<Type>, bool, Box<FieldList>),
}

/// What the runtime-type stack holds: the type of one value.
#[derive(Debug, PartialEq, Eq)]
pub enum StackType {
    /// A value of a type of the type language.
    Plain(Type),
    /// The handle of the local region with this number.
    Handle(usize),
    /// A pointer to a tuple in the local region with this number.
    TuplePtr(usize, FieldList),
}

/// A coarse description of an entry or of a value's type, for error reports.
#[derive(Clone, Copy, Debug, PartialEq, Eq, Structural)]
pub enum Shape {
    Region,
    /// A capability without access rights, or any capability at all where
    /// one is expected.
    HandleCap,
    /// A capability to read and write.
    ReadWriteCap,
    /// An exclusive capability.
    UniqueCap,
    Marker,
    /// Any type, where one is expected.
    Type,
    I32,
    Word32,
    Word64,
    Ptr,
    Tuple,
    Array,
    Func,
    Quantified,
    Handle,
    /// A pointer to a tuple all of whose fields are initialised.
    TuplePtr,
    /// A pointer to a tuple that has a field yet to be initialised.
    UninitTuplePtr,
}

impl Rights {
    /// How strong the rights are: 0 for none, 1 for shared reading and
    /// writing, 2 for exclusive reading and writing.
    pub open spec fn level(self) -> nat
        decreases self,
    {
        match self {
            Rights::Handle => 0,
            Rights::ReadWrite => 1,
            Rights::Unique => 2,
            Rights::Both(a, b) => if a.level() >= b.level() {
                a.level()
            } else {
                b.level()
            },
        }
    }

    /// Computes `level`.
    pub fn strength(&self) -> (l: u8)
        ensures
            l == self.level(),
        decreases self,
    {
        match self {
            Rights::Handle => 0,
            Rights::ReadWrite => 1,
            Rights::Unique => 2,
            Rights::Both(a, b) => {
                let la: u8 = (**a).strength();
                let lb: u8 = (**b).strength();
                if la >= lb {
                    la
                } else {
                    lb
                }
            },
        }
    }

    /// Whether two rights are built alike.
    pub fn same(&self, other: &Rights) -> (r: bool)
        ensures
            r == (*self == *other),
        decreases self,
    {
        match (self, other) {
            (Rights::Handle, Rights::Handle) => true,
            (Rights::ReadWrite, Rights::ReadWrite) => true,
            (Rights::Unique, Rights::Unique) => true,
            (Rights::Both(a, b), Rights::Both(c, d)) => (**a).same(&**c) && (**b).same(&**d),
            _ => false,
        }
    }
}

impl Clone for Rights {
    fn clone(&self) -> (res: Self)
        ensures
            res == *self,
        decreases self,
    {
        match self {
            Rights::Handle => Rights::Handle,
            Rights::ReadWrite => Rights::ReadWrite,
            Rights::Unique => Rights::Unique,
            Rights::Both(a, b) => Rights::Both(Box::new((&**a).clone()), Box::new((&**b).clone())),
        }
    }
}

/// The shape of a capability whose rights have the given level.
pub open spec fn cap_shape(level: nat) -> Shape {
    if level >= 2 {
        Shape::UniqueCap
    } else if level == 1 {
        Shape::ReadWriteCap
    } else {
        Shape::HandleCap
    }
}

/// Computes `cap_shape`.
pub fn cap_shape_of(level: u8) -> (s: Shape)
    ensures
        s == cap_shape(level as nat),
{
    if level >= 2 {
        Shape::UniqueCap
    } else if level == 1 {
        Shape::ReadWriteCap
    } else {
        Shape::HandleCap
    }
}

impl Capability {
    /// Whether this capability can stand where `needed` is required: it is
    /// for the same region and its rights are at least as strong.
    pub open spec fn satisfies(self, needed: Capability) -> bool {
        self.region == needed.region && self.rights.level() >= needed.rights.level()
    }

    /// Whether two capabilities are built alike.
    pub fn same(&self, other: &Capability) -> (r: bool)
        ensures
            r == (*self == *other),
    {
        self.region == other.region && self.rights.same(&other.rights)
    }
}

impl Clone for Capability {
    fn clone(&self) -> (res: Self)
        ensures
            res == *self,
    {
        Capability { region: self.region, rights: self.rights.clone() }
    }
}

impl TypeList {
    /// The types of the list, in order.
    pub open spec fn to_seq(self) -> Seq<Type>
        decreases self,
    {
        match self {
            TypeList::Nil => Seq::empty(),
            TypeList::Cons(t, rest) => seq![*t] + rest.to_seq(),
        }
    }
}

impl View for TypeList {
    type V = Seq<Type>;

    open spec fn view(&self) -> Seq<Type> {
        self.to_seq()
    }
}

impl EntryList {
    /// The entries of the list, in order.
    pub open spec fn to_seq(self) -> Seq<Entry>
        decreases self,
    {
        match self {
            EntryList::Nil => Seq::empty(),
            EntryList::Cons(e, rest) => seq![*e] + rest.to_seq(),
        }
    }
}

impl View for EntryList {
    type V = Seq<Entry>;

    open spec fn view(&self) -> Seq<Entry> {
        self.to_seq()
    }
}

impl FieldList {
    /// The fields of the list, in order: the type of each, and whether it
    /// has been initialised.
    pub open spec fn to_seq(self) -> Seq<(Type, bool)>
        decreases self,
    {
        match self {
            FieldList::Nil => Seq::empty(),
            FieldList::Cons(t, init, rest) => seq![(*t, init)] + rest.to_seq(),
        }
    }
}

impl View for FieldList {
    type V = Seq<(Type, bool)>;

    open spec fn view(&self) -> Seq<(Type, bool)> {
        self.to_seq()
    }
}

impl Type {
    /// Whether two types are built alike.
    pub fn same(&self, other: &Type) -> (r: bool)
        ensures
            r == (*self == *other),
        decreases self,
    {
        match (self, other) {
            (Type::I32, Type::I32) => true,
            (Type::Word32, Type::Word32) => true,
            (Type::Word64, Type::Word64) => true,
            (Type::Ptr, Type::Ptr) => true,
            (Type::Tuple(a), Type::Tuple(b)) => a.same(b),
            (Type::Array(a), Type::Array(b)) => (**a).same(&**b),
            (Type::Func(a), Type::Func(b)) => (**a).same(&**b),
            (Type::Quantified(q, a), Type::Quantified(p, b)) => *q == *p && a.same(b),
            _ => false,
        }
    }

    /// The shape of the type.
    pub open spec fn shape(self) -> Shape {
        match self {
            Type::I32 => Shape::I32,
            Type::Word32 => Shape::Word32,
            Type::Word64 => Shape::Word64,
            Type::Ptr => Shape::Ptr,
            Type::Tuple(_) => Shape::Tuple,
            Type::Array(_) => Shape::Array,
            Type::Func(_) => Shape::Func,
            Type::Quantified(_, _) => Shape::Quantified,
        }
    }

    /// Computes `shape`.
    pub fn shape_of(&self) -> (s: Shape)
        ensures
            s == self.shape(),
    {
        match self {
            Type::I32 => Shape::I32,
            Type::Word32 => Shape::Word32,
            Type::Word64 => Shape::Word64,
            Type::Ptr => Shape::Ptr,
            Type::Tuple(_) => Shape::Tuple,
            Type::Array(_) => Shape::Array,
            Type::Func(_) => Shape::Func,
            Type::Quantified(_, _) => Shape::Quantified,
        }
    }
}

impl Clone for Type {
    fn clone(&self) -> (res: Self)
        ensures
            res == *self,
        decreases self,
    {
        match self {
            Type::I32 => Type::I32,
            Type::Word32 => Type::Word32,
            Type::Word64 => Type::Word64,
            Type::Ptr => Type::Ptr,
            Type::Tuple(fields) => Type::Tuple(fields.clone()),
            Type::Array(item) => Type::Array(Box::new((&**item).clone())),
            Type::Func(f) => Type::Func(Box::new((&**f).clone())),
            Type::Quantified(q, body) => Type::Quantified(*q, body.clone()),
        }
    }
}

impl FuncType {
    /// Whether two function types are built alike.
    pub fn same(&self, other: &FuncType) -> (r: bool)
        ensures
            r == (*self == *other),
        decreases self,
    {
        self.params.same(&other.params) && self.requirement.same(&other.requirement)
    }
}

impl Clone for FuncType {
    fn clone(&self) -> (res: Self)
        ensures
            res == *self,
        decreases self,
    {
        FuncType { params: self.params.clone(), requirement: self.requirement.clone() }
    }
}

impl TypeList {
    /// Whether two lists hold the same types in the same order.
    pub fn same(&self, other: &TypeList) -> (r: bool)
        ensures
            r == (*self == *other),
        decreases self,
    {
        match (self, other) {
            (TypeList::Nil, TypeList::Nil) => true,
            (TypeList::Cons(a, x), TypeList::Cons(b, y)) => (**a).same(&**b) && (**x).same(&**y),
            _ => false,
        }
    }

    /// The list of the types of a vector, in its order.
    pub fn from_vec(types: Vec<Type>) -> (list: TypeList)
        ensures
            list@ == types@,
    {
        let mut types = types;
        let ghost all = types@;
        let mut list = TypeList::Nil;
        while types.len() > 0
            invariant
                types@.len() <= all.len(),
                types@ + list@ == all,
            decreases types@.len(),
        {
            let ghost before = types@;
            let last = types.pop().unwrap();
            assert(before =~= types@ + seq![last]);
            assert(types@ + (seq![last] + list@) =~= (types@ + seq![last]) + list@);
            list = TypeList::Cons(Box::new(last), Box::new(list));
        }
        assert(types@ + list@ =~= list@);
        list
    }
}

impl Clone for TypeList {
    fn clone(&self) -> (res: Self)
        ensures
            res == *self,
        decreases self,
    {
        match self {
            TypeList::Nil => TypeList::Nil,
            TypeList::Cons(t, rest) => TypeList::Cons(
                Box::new((&**t).clone()),
                Box::new((&**rest).clone()),
            ),
        }
    }
}

impl Entry {
    /// Whether two entries are built alike.
    pub fn same(&self, other: &Entry) -> (r: bool)
        ensures
            r == (*self == *other),
        decreases self,
    {
        match (self, other) {
            (Entry::Region(a), Entry::Region(b)) => *a == *b,
            (Entry::Cap(a), Entry::Cap(b)) => a.same(b),
            (Entry::Type(a), Entry::Type(b)) => a.same(b),
            (Entry::Marker(a), Entry::Marker(b)) => *a == *b,
            _ => false,
        }
    }

    /// The shape of the entry.
    pub open spec fn shape(self) -> Shape {
        match self {
            Entry::Region(_) => Shape::Region,
            Entry::Cap(c) => cap_shape(c.rights.level()),
            Entry::Type(t) => t.shape(),
            Entry::Marker(_) => Shape::Marker,
        }
    }

    /// Computes `shape`.
    pub fn shape_of(&self) -> (s: Shape)
        ensures
            s == self.shape(),
    {
        match self {
            Entry::Region(_) => Shape::Region,
            Entry::Cap(c) => cap_shape_of(c.rights.strength()),
            Entry::Type(t) => t.shape_of(),
            Entry::Marker(_) => Shape::Marker,
        }
    }
}

impl Clone for Entry {
    fn clone(&self) -> (res: Self)
        ensures
            res == *self,
        decreases self,
    {
        match self {
            Entry::Region(r) => Entry::Region(*r),
            Entry::Cap(c) => Entry::Cap(c.clone()),
            Entry::Type(t) => Entry::Type(t.clone()),
            Entry::Marker(q) => Entry::Marker(*q),
        }
    }
}

impl EntryList {
    /// Whether two lists hold the same entries in the same order.
    pub fn same(&self, other: &EntryList) -> (r: bool)
        ensures
            r == (*self == *other),
        decreases self,
    {
        match (self, other) {
            (EntryList::Nil, EntryList::Nil) => true,
            (EntryList::Cons(a, x), EntryList::Cons(b, y)) => (**a).same(&**b) && (**x).same(&**y),
            _ => false,
        }
    }
}

impl Clone for EntryList {
    fn clone(&self) -> (res: Self)
        ensures
            res == *self,
        decreases self,
    {
        match self {
            EntryList::Nil => EntryList::Nil,
            EntryList::Cons(e, rest) => EntryList::Cons(
                Box::new((&**e).clone()),
                Box::new((&**rest).clone()),
            ),
        }
    }
}

impl TypeList {
    /// The number of types in the list, where it is at most `limit`.
    pub fn count(&self, limit: usize) -> (n: Option<usize>)
        ensures
            n matches Some(k) ==> k == self@.len() && k <= limit,
            n is None ==> self@.len() > limit,
        decreases self,
    {
        match self {
            TypeList::Nil => Some(0),
            TypeList::Cons(_, rest) => {
                if limit == 0 {
                    None
                } else {
                    match (**rest).count(limit - 1) {
                        Some(k) => Some(k + 1),
                        None => None,
                    }
                }
            },
        }
    }
}

impl EntryList {
    /// The type that the last entry of the list is, if it is one.
    pub open spec fn last_type(self) -> Option<Type>
        decreases self,
    {
        match self {
            EntryList::Nil => None,
            EntryList::Cons(e, rest) => match *rest {
                EntryList::Nil => match *e {
                    Entry::Type(t) => Some(t),
                    _ => None,
                },
                _ => rest.last_type(),
            },
        }
    }

    /// Computes `last_type`.
    pub fn last_type_of(&self) -> (t: Option<&Type>)
        ensures
            match t {
                Some(ty) => self.last_type() == Some(*ty),
                None => self.last_type() is None,
            },
        decreases self,
    {
        match self {
            EntryList::Nil => None,
            EntryList::Cons(e, rest) => match &**rest {
                EntryList::Nil => match &**e {
                    Entry::Type(t) => Some(t),
                    _ => None,
                },
                _ => (**rest).last_type_of(),
            },
        }
    }
}

impl FieldList {
    /// The fields of a freshly allocated tuple: the given types, none of
    /// them initialised.
    pub open spec fn uninit(types: TypeList) -> FieldList
        decreases types,
    {
        match types {
            TypeList::Nil => FieldList::Nil,
            TypeList::Cons(t, rest) => FieldList::Cons(t, false, Box::new(FieldList::uninit(*rest))),
        }
    }

    /// The same fields, with field `n` initialised.
    pub open spec fn set_init(self, n: nat) -> FieldList
        decreases self,
    {
        match self {
            FieldList::Nil => FieldList::Nil,
            FieldList::Cons(t, init, rest) => if n == 0 {
                FieldList::Cons(t, true, rest)
            } else {
                FieldList::Cons(t, init, Box::new(rest.set_init((n - 1) as nat)))
            },
        }
    }

    /// Whether every field is initialised.
    pub open spec fn all_init(self) -> bool
        decreases self,
    {
        match self {
            FieldList::Nil => true,
            FieldList::Cons(_, init, rest) => init && rest.all_init(),
        }
    }

    /// The type of field `n`, where there is one.
    pub open spec fn type_at(self, n: nat) -> Option<Type>
        decreases self,
    {
        match self {
            FieldList::Nil => None,
            FieldList::Cons(t, _, rest) => if n == 0 {
                Some(*t)
            } else {
                rest.type_at((n - 1) as nat)
            },
        }
    }

    /// Computes `uninit`.
    pub fn new_uninit(types: TypeList) -> (fields: FieldList)
        ensures
            fields == FieldList::uninit(types),
        decreases types,
    {
        match types {
            TypeList::Nil => FieldList::Nil,
            TypeList::Cons(t, rest) => FieldList::Cons(
                t,
                false,
                Box::new(FieldList::new_uninit(*rest)),
            ),
        }
    }

    /// Computes `set_init`.
    pub fn with_init(self, n: usize) -> (fields: FieldList)
        ensures
            fields == self.set_init(n as nat),
        decreases self,
    {
        match self {
            FieldList::Nil => FieldList::Nil,
            FieldList::Cons(t, init, rest) => if n == 0 {
                FieldList::Cons(t, true, rest)
            } else {
                FieldList::Cons(t, init, Box::new((*rest).with_init(n - 1)))
            },
        }
    }

    /// Computes `all_init`.
    pub fn is_all_init(&self) -> (r: bool)
        ensures
            r == self.all_init(),
        decreases self,
    {
        match self {
            FieldList::Nil => true,
            FieldList::Cons(_, init, rest) => *init && (**rest).is_all_init(),
        }
    }

    /// Computes `type_at`.
    pub fn field_type(&self, n: usize) -> (t: Option<&Type>)
        ensures
            match t {
                Some(ty) => self.type_at(n as nat) == Some(*ty),
                None => self.type_at(n as nat) is None,
            },
        decreases self,
    {
        match self {
            FieldList::Nil => None,
            FieldList::Cons(t, _, rest) => if n == 0 {
                Some(&**t)
            } else {
                (**rest).field_type(n - 1)
            },
        }
    }

    /// Whether two lists hold the same fields in the same order.
    pub fn same(&self, other: &FieldList) -> (r: bool)
        ensures
            r == (*self == *other),
        decreases self,
    {
        match (self, other) {
            (FieldList::Nil, FieldList::Nil) => true,
            (FieldList::Cons(a, i, x), FieldList::Cons(b, j, y)) => (**a).same(&**b) && *i == *j
                && (**x).same(&**y),
            _ => false,
        }
    }
}

impl Clone for FieldList {
    fn clone(&self) -> (res: Self)
        ensures
            res == *self,
        decreases self,
    {
        match self {
            FieldList::Nil => FieldList::Nil,
            FieldList::Cons(t, init, rest) => FieldList::Cons(
                Box::new((&**t).clone()),
                *init,
                Box::new((&**rest).clone()),
            ),
        }
    }
}

impl StackType {
    /// The shape of the type.
    pub open spec fn shape(self) -> Shape {
        match self {
            StackType::Plain(t) => t.shape(),
            StackType::Handle(_) => Shape::Handle,
            StackType::TuplePtr(_, fields) => if fields.all_init() {
                Shape::TuplePtr
            } else {
                Shape::UninitTuplePtr
            },
        }
    }

    /// Computes `shape`.
    pub fn shape_of(&self) -> (s: Shape)
        ensures
            s == self.shape(),
    {
        match self {
            StackType::Plain(t) => t.shape_of(),
            StackType::Handle(_) => Shape::Handle,
            StackType::TuplePtr(_, fields) => if fields.is_all_init() {
                Shape::TuplePtr
            } else {
                Shape::UninitTuplePtr
            },
        }
    }

    /// Whether two stack types are built alike.
    pub fn same(&self, other: &StackType) -> (r: bool)
        ensures
            r == (*self == *other),
    {
        match (self, other) {
            (StackType::Plain(a), StackType::Plain(b)) => a.same(b),
            (StackType::Handle(a), StackType::Handle(b)) => *a == *b,
            (StackType::TuplePtr(a, x), StackType::TuplePtr(b, y)) => *a == *b && x.same(y),
            _ => false,
        }
    }
}

impl Clone for StackType {
    fn clone(&self) -> (res: Self)
        ensures
            res == *self,
    {
        match self {
            StackType::Plain(t) => StackType::Plain(t.clone()),
            StackType::Handle(r) => StackType::Handle(*r),
            StackType::TuplePtr(r, fields) => StackType::TuplePtr(*r, fields.clone()),
        }
    }
}

impl FieldList {
    /// The fields of a freshly allocated tuple are the given types, in
    /// order, none of them initialised.
    pub proof fn lemma_uninit(types: TypeList)
        ensures
            FieldList::uninit(types)@.len() == types@.len(),
            forall|j: int|
                0 <= j < types@.len() ==> (#[trigger] FieldList::uninit(types)@[j]) == (
                    types@[j],
                    false,
                ),
        decreases types,
    {
        match types {
            TypeList::Nil => {},
            TypeList::Cons(t, rest) => {
                FieldList::lemma_uninit(*rest);
                assert forall|j: int| 0 <= j < types@.len() implies (#[trigger] FieldList::uninit(
                    types,
                )@[j]) == (types@[j], false) by {
                    if j > 0 {
                        assert(FieldList::uninit(types)@[j] == FieldList::uninit(*rest)@[j - 1]);
                        assert(types@[j] == rest@[j - 1]);
                    }
                }
            },
        }
    }

    /// Initialising field `n` changes the mark of that field and nothing
    /// else; where there is no field `n`, nothing at all.
    pub proof fn lemma_set_init(self, n: nat)
        ensures
            n < self@.len() ==> self.set_init(n)@ == self@.update(
                n as int,
                (self@[n as int].0, true),
            ),
            n >= self@.len() ==> self.set_init(n) == self,
        decreases self,
    {
        match self {
            FieldList::Nil => {},
            FieldList::Cons(t, init, rest) => {
                if n == 0 {
                    assert(self.set_init(n)@ =~= self@.update(0, (self@[0].0, true)));
                } else {
                    rest.lemma_set_init((n - 1) as nat);
                    if n < self@.len() {
                        assert(self@[n as int] == rest@[n - 1]);
                        assert(self.set_init(n)@ =~= self@.update(
                            n as int,
                            (self@[n as int].0, true),
                        ));
                    }
                }
            },
        }
    }

    /// All fields are initialised exactly when each one is.
    pub proof fn lemma_all_init(self)
        ensures
            self.all_init() <==> forall|j: int| 0 <= j < self@.len() ==> (#[trigger] self@[j]).1,
        decreases self,
    {
        match self {
            FieldList::Nil => {},
            FieldList::Cons(t, init, rest) => {
                rest.lemma_all_init();
                if self.all_init() {
                    assert forall|j: int| 0 <= j < self@.len() implies (#[trigger] self@[j]).1 by {
                        if j > 0 {
                            assert(self@[j] == rest@[j - 1]);
                        }
                    }
                } else if init {
                    let j = choose|j: int| 0 <= j < rest@.len() && !(#[trigger] rest@[j]).1;
                    assert(self@[j + 1] == rest@[j]);
                } else {
                    assert(!self@[0].1);
                }
            },
        }
    }

    /// The type of field `n` is the type at place `n`, where there is one.
    pub proof fn lemma_type_at(self, n: nat)
        ensures
            n < self@.len() ==> self.type_at(n) == Some(self@[n as int].0),
            n >= self@.len() ==> self.type_at(n) is None,
        decreases self,
    {
        match self {
            FieldList::Nil => {},
            FieldList::Cons(t, init, rest) => {
                if n > 0 {
                    rest.lemma_type_at((n - 1) as nat);
                    if n < self@.len() {
                        assert(self@[n as int] == rest@[n - 1]);
                    }
                }
            },
        }
    }
}

impl Region {
    /// Whether the region is one that the function created and has freed.
    /// `env` tells what has become of the capability of each region that the
    /// function created.
    pub open spec fn names_freed(self, env: Seq<CapState>) -> bool {
        self matches Region::Local(id) && id < env.len() && env[id as int] == CapState::Freed
    }

    /// Computes `names_freed`.
    pub fn is_freed(&self, env: &Vec<CapState>) -> (r: bool)
        ensures
            r == self.names_freed(env@),
    {
        match self {
            Region::Local(id) => *id < env.len() && match env[*id] {
                CapState::Freed => true,
                _ => false,
            },
            _ => false,
        }
    }
}

impl Type {
    /// Whether the type names, anywhere inside it, a region that has been
    /// freed.
    pub open spec fn names_freed(self, env: Seq<CapState>) -> bool
        decreases self,
    {
        match self {
            Type::Tuple(types) => types.names_freed(env),
            Type::Array(item) => item.names_freed(env),
            Type::Func(f) => f.names_freed(env),
            Type::Quantified(_, body) => body.names_freed(env),
            _ => false,
        }
    }

    /// Computes `names_freed`.
    pub fn is_freed(&self, env: &Vec<CapState>) -> (r: bool)
        ensures
            r == self.names_freed(env@),
        decreases self,
    {
        match self {
            Type::Tuple(types) => types.is_freed(env),
            Type::Array(item) => (**item).is_freed(env),
            Type::Func(f) => (**f).is_freed(env),
            Type::Quantified(_, body) => body.is_freed(env),
            _ => false,
        }
    }
}

impl FuncType {
    /// Whether a parameter or the requirement names a region that has been
    /// freed.
    pub open spec fn names_freed(self, env: Seq<CapState>) -> bool
        decreases self,
    {
        self.params.names_freed(env) || self.requirement.region.names_freed(env)
    }

    /// Computes `names_freed`.
    pub fn is_freed(&self, env: &Vec<CapState>) -> (r: bool)
        ensures
            r == self.names_freed(env@),
        decreases self,
    {
        self.params.is_freed(env) || self.requirement.region.is_freed(env)
    }
}

impl TypeList {
    /// Whether one of the types names a region that has been freed.
    pub open spec fn names_freed(self, env: Seq<CapState>) -> bool
        decreases self,
    {
        match self {
            TypeList::Nil => false,
            TypeList::Cons(t, rest) => t.names_freed(env) || rest.names_freed(env),
        }
    }

    /// Computes `names_freed`.
    pub fn is_freed(&self, env: &Vec<CapState>) -> (r: bool)
        ensures
            r == self.names_freed(env@),
        decreases self,
    {
        match self {
            TypeList::Nil => false,
            TypeList::Cons(t, rest) => (**t).is_freed(env) || (**rest).is_freed(env),
        }
    }
}

impl Entry {
    /// Whether the entry names a region that has been freed.
    pub open spec fn names_freed(self, env: Seq<CapState>) -> bool
        decreases self,
    {
        match self {
            Entry::Region(r) => r.names_freed(env),
            Entry::Cap(c) => c.region.names_freed(env),
            Entry::Type(t) => t.names_freed(env),
            Entry::Marker(_) => false,
        }
    }

    /// Computes `names_freed`.
    pub fn is_freed(&self, env: &Vec<CapState>) -> (r: bool)
        ensures
            r == self.names_freed(env@),
        decreases self,
    {
        match self {
            Entry::Region(r) => r.is_freed(env),
            Entry::Cap(c) => c.region.is_freed(env),
            Entry::Type(t) => t.is_freed(env),
            Entry::Marker(_) => false,
        }
    }
}

impl EntryList {
    /// Whether one of the entries names a region that has been freed.
    pub open spec fn names_freed(self, env: Seq<CapState>) -> bool
        decreases self,
    {
        match self {
            EntryList::Nil => false,
            EntryList::Cons(e, rest) => e.names_freed(env) || rest.names_freed(env),
        }
    }

    /// Computes `names_freed`.
    pub fn is_freed(&self, env: &Vec<CapState>) -> (r: bool)
        ensures
            r == self.names_freed(env@),
        decreases self,
    {
        match self {
            EntryList::Nil => false,
            EntryList::Cons(e, rest) => (**e).is_freed(env) || (**rest).is_freed(env),
        }
    }
}

impl FieldList {
    /// Whether the type of one of the fields names a region that has been
    /// freed.
    pub open spec fn names_freed(self, env: Seq<CapState>) -> bool
        decreases self,
    {
        match self {
            FieldList::Nil => false,
            FieldList::Cons(t, _, rest) => t.names_freed(env) || rest.names_freed(env),
        }
    }

    /// Computes `names_freed`.
    pub fn is_freed(&self, env: &Vec<CapState>) -> (r: bool)
        ensures
            r == self.names_freed(env@),
        decreases self,
    {
        match self {
            FieldList::Nil => false,
            FieldList::Cons(t, _, rest) => (**t).is_freed(env) || (**rest).is_freed(env),
        }
    }
}

impl StackType {
    /// Whether the type names a region that has been freed: the region of a
    /// handle or of a pointer, or a region inside a type.
    pub open spec fn names_freed(self, env: Seq<CapState>) -> bool {
        match self {
            StackType::Plain(t) => t.names_freed(env),
            StackType::Handle(id) => Region::Local(id).names_freed(env),
            StackType::TuplePtr(id, fields) => Region::Local(id).names_freed(env)
                || fields.names_freed(env),
        }
    }

    /// Computes `names_freed`.
    pub fn is_freed(&self, env: &Vec<CapState>) -> (r: bool)
        ensures
            r == self.names_freed(env@),
    {
        match self {
            StackType::Plain(t) => t.is_freed(env),
            StackType::Handle(id) => Region::Local(*id).is_freed(env),
            StackType::TuplePtr(id, fields) => Region::Local(*id).is_freed(env) || fields.is_freed(
                env,
            ),
        }
    }
}

} // verus!
