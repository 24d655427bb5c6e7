use crate::name_map::NameMap;
use vstd::prelude::*;
use vstd::string::StringExecFns;

verus! {

/// What an analysis of raw pointers found, by item and by field: for a
/// function, by parameter; for a struct, by field. The qualifiers of a field
/// start at the outermost pointer of its type.
pub struct Qualifiers<Qualifier> {
    pub fn_data: NameMap<NameMap<Vec<Qualifier>>>,
    pub struct_data: NameMap<NameMap<Vec<Qualifier>>>,
}

/// Whether a pointer owns what it points to.
#[derive(Clone, Copy, PartialEq, Eq, Structural, Debug)]
pub enum Ownership {
    Owning,
    Transient,
    Unknown,
}

/// Whether a pointer is written through. `Mut` is below `Imm`.
#[derive(Clone, Copy, PartialEq, Eq, Structural, Debug)]
pub enum Mutability {
    Imm,
    Mut,
}

/// Whether a pointer points into an array. `Arr` is below `Ptr`.
#[derive(Clone, Copy, PartialEq, Eq, Structural, Debug)]
pub enum Fatness {
    Arr,
    Ptr,
}

/// The lint that suggests a safe type for a field that holds an owning raw
/// pointer.
pub struct RawPointerPermission {
    ownership: Qualifiers<Ownership>,
    mutability: Qualifiers<Mutability>,
    fatness: Qualifiers<Fatness>,
}

/// One of the pointers owns what it points to.
pub open spec fn owns(ownership: Seq<Ownership>) -> bool {
    exists|i: int| 0 <= i < ownership.len() && #[trigger] ownership[i] == Ownership::Owning
}

/// The type that takes the place of a chain of raw pointers to `inner`: an
/// owning pointer becomes an optional box, any other stays a raw pointer.
pub open spec fn retyped(inner: Seq<char>, ownership: Seq<Ownership>) -> Seq<char>
    decreases ownership.len(),
{
    if ownership.len() == 0 {
        inner
    } else {
        let below = retyped(inner, ownership.drop_first());
        match ownership[0] {
            Ownership::Owning => "Option<Box<"@ + below + ">>"@,
            _ => "*mut "@ + below,
        }
    }
}

/// What the lint suggests for a field: nothing unless one of its pointers
/// owns.
pub open spec fn suggestion(inner: Seq<char>, ownership: Seq<Ownership>) -> Option<Seq<char>> {
    if owns(ownership) {
        Some(retyped(inner, ownership))
    } else {
        None
    }
}

/// Whether one of the pointers owns what it points to.
pub fn has_owning(ownership: &Vec<Ownership>) -> (found: bool)
    ensures
        found == owns(ownership@),
{
    let mut i: usize = 0;
    while i < ownership.len()
        invariant
            i <= ownership@.len(),
            forall|j: int| 0 <= j < i ==> ownership@[j] != Ownership::Owning,
        decreases ownership@.len() - i,
    {
        if ownership[i] == Ownership::Owning {
            return true;
        }
        i = i + 1;
    }
    false
}

/// The type that takes the place of a chain of raw pointers to `inner`.
pub fn ownership_type_to_type_str(inner: &str, ownership: &Vec<Ownership>) -> (type_str: String)
    ensures
        type_str@ == retyped(inner@, ownership@),
{
    let mut type_str = inner.to_owned();
    let mut i: usize = ownership.len();
    assert(ownership@.skip(i as int).len() == 0);
    while i > 0
        invariant
            i <= ownership@.len(),
            type_str@ == retyped(inner@, ownership@.skip(i as int)),
        decreases i,
    {
        i = i - 1;
        proof {
            let rest = ownership@.skip(i as int);
            assert(rest.drop_first() =~= ownership@.skip(i + 1));
            assert(rest[0] == ownership@[i as int]);
        }
        match ownership[i] {
            Ownership::Owning => {
                let mut wrapped = "Option<Box<".to_owned();
                wrapped.append(type_str.as_str());
                wrapped.append(">>");
                type_str = wrapped;
            },
            _ => {
                let mut wrapped = "*mut ".to_owned();
                wrapped.append(type_str.as_str());
                type_str = wrapped;
            },
        }
    }
    assert(ownership@.skip(0) =~= ownership@);
    type_str
}

impl<Qualifier> Qualifiers<Qualifier> {
    /// The qualifiers of a field of a struct, if the analysis knows the field.
    pub open spec fn struct_field(self, path: Seq<char>, field: Seq<char>) -> Option<
        Vec<Qualifier>,
    > {
        if self.struct_data@.contains_key(path) && self.struct_data@[path]@.contains_key(field) {
            Some(self.struct_data@[path]@[field])
        } else {
            None
        }
    }

    /// The qualifiers of a field of a struct, if the analysis knows the field.
    pub fn find_struct_field(&self, path: &str, field: &str) -> (found: Option<&Vec<Qualifier>>)
        ensures
            found == (match self.struct_field(path@, field@) {
                Some(qualifiers) => Some(&qualifiers),
                None => None,
            }),
    {
        match self.struct_data.get(path) {
            Some(fields) => fields.get(field),
            None => None,
        }
    }
}

impl RawPointerPermission {
    /// The lint, with what the three analyses found.
    pub fn new(
        ownership: Qualifiers<Ownership>,
        mutability: Qualifiers<Mutability>,
        fatness: Qualifiers<Fatness>,
    ) -> (lint: RawPointerPermission)
        ensures
            lint.ownership() == ownership,
            lint.mutability() == mutability,
            lint.fatness() == fatness,
    {
        RawPointerPermission { ownership, mutability, fatness }
    }

    /// What the ownership analysis found.
    pub closed spec fn ownership(self) -> Qualifiers<Ownership> {
        self.ownership
    }

    /// What the mutability analysis found.
    pub closed spec fn mutability(self) -> Qualifiers<Mutability> {
        self.mutability
    }

    /// What the fatness analysis found.
    pub closed spec fn fatness(self) -> Qualifiers<Fatness> {
        self.fatness
    }

    /// The type to suggest for a field of a struct, whose pointers lead to the
    /// type with the text `inner`: none unless one of the pointers owns. The
    /// ownership analysis must know the field.
    pub fn check_field(&self, path: &str, field: &str, inner: &str) -> (suggested: Option<String>)
        requires
            self.ownership().struct_field(path@, field@).is_some(),
        ensures
            suggested.is_some() == owns(self.ownership().struct_field(path@, field@).unwrap()@),
            suggested matches Some(text) ==> text@ == retyped(
                inner@,
                self.ownership().struct_field(path@, field@).unwrap()@,
            ),
    {
        let found = self.ownership.find_struct_field(path, field);
        let ownership = found.unwrap();
        if has_owning(ownership) {
            Some(ownership_type_to_type_str(inner, ownership))
        } else {
            None
        }
    }

    /// Whether the ownership analysis knows the field of the struct.
    pub fn knows_field(&self, path: &str, field: &str) -> (known: bool)
        ensures
            known == self.ownership().struct_field(path@, field@).is_some(),
    {
        self.ownership.find_struct_field(path, field).is_some()
    }
}

} // verus!
