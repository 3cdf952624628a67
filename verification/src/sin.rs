//! The sections of a compiled rasm program: procedures, interfaces and
//! structures, each named by the hash of its name and carrying attributes.

use vstd::prelude::*;

verus! {

#[derive(Debug, Clone)]
pub enum Attribute {
    Public,
    Private,
    Static,
    Implemented(u64),
    Contain(u64),
    Return(u64),
    Overwrite(u64),
    Accept(Vec<u64>),
}

/// An attribute as plain values.
pub enum AttributeView {
    Public,
    Private,
    Static,
    Implemented(u64),
    Contain(u64),
    Return(u64),
    Overwrite(u64),
    Accept(Seq<u64>),
}

impl View for Attribute {
    type V = AttributeView;

    open spec fn view(&self) -> AttributeView {
        match self {
            Attribute::Public => AttributeView::Public,
            Attribute::Private => AttributeView::Private,
            Attribute::Static => AttributeView::Static,
            Attribute::Implemented(h) => AttributeView::Implemented(*h),
            Attribute::Contain(h) => AttributeView::Contain(*h),
            Attribute::Return(h) => AttributeView::Return(*h),
            Attribute::Overwrite(h) => AttributeView::Overwrite(*h),
            Attribute::Accept(hs) => AttributeView::Accept(hs@),
        }
    }
}

/// The views of a list of attributes.
pub open spec fn attribute_views(attrs: Seq<Attribute>) -> Seq<AttributeView> {
    attrs.map_values(|a: Attribute| a@)
}

#[derive(Debug, Clone)]
pub struct Attributes(pub Vec<Attribute>);

impl Attributes {
    pub fn new(attributes: Vec<Attribute>) -> (r: Attributes)
        ensures
            r.0@ == attributes@,
    {
        Attributes(attributes)
    }
}

/// A procedure: its name hash and where its code lies in the data.
#[derive(Debug, Clone)]
pub struct Procedure {
    pub hash: u64,
    pub start: u64,
    pub size: u64,
    pub attributes: Attributes,
}

pub struct ProcedureView {
    pub hash: u64,
    pub start: u64,
    pub size: u64,
    pub attributes: Seq<AttributeView>,
}

impl View for Procedure {
    type V = ProcedureView;

    open spec fn view(&self) -> ProcedureView {
        ProcedureView {
            hash: self.hash,
            start: self.start,
            size: self.size,
            attributes: attribute_views(self.attributes.0@),
        }
    }
}

impl Procedure {
    pub fn new(hash: u64, start: u64, size: u64, attributes: Attributes) -> (r: Procedure)
        ensures
            r.hash == hash,
            r.start == start,
            r.size == size,
            r.attributes.0@ == attributes.0@,
    {
        Procedure { hash, start, size, attributes }
    }
}

/// A procedure that an interface declares.
#[derive(Debug, Clone)]
pub struct VProcedure {
    pub hash: u64,
    pub attributes: Attributes,
}

pub struct MemberView {
    pub hash: u64,
    pub attributes: Seq<AttributeView>,
}

impl View for VProcedure {
    type V = MemberView;

    open spec fn view(&self) -> MemberView {
        MemberView { hash: self.hash, attributes: attribute_views(self.attributes.0@) }
    }
}

impl VProcedure {
    pub fn new(hash: u64, attributes: Attributes) -> (r: VProcedure)
        ensures
            r.hash == hash,
            r.attributes.0@ == attributes.0@,
    {
        VProcedure { hash, attributes }
    }
}

/// A field of a structure.
#[derive(Debug, Clone)]
pub struct Field {
    pub hash: u64,
    pub attributes: Attributes,
}

impl View for Field {
    type V = MemberView;

    open spec fn view(&self) -> MemberView {
        MemberView { hash: self.hash, attributes: attribute_views(self.attributes.0@) }
    }
}

impl Field {
    pub fn new(hash: u64, attributes: Attributes) -> (r: Field)
        ensures
            r.hash == hash,
            r.attributes.0@ == attributes.0@,
    {
        Field { hash, attributes }
    }
}

#[derive(Debug, Clone)]
pub struct Interface {
    pub hash: u64,
    pub vprocs: Vec<VProcedure>,
    pub attributes: Attributes,
}

pub struct InterfaceView {
    pub hash: u64,
    pub vprocs: Seq<MemberView>,
    pub attributes: Seq<AttributeView>,
}

impl View for Interface {
    type V = InterfaceView;

    open spec fn view(&self) -> InterfaceView {
        InterfaceView {
            hash: self.hash,
            vprocs: self.vprocs@.map_values(|v: VProcedure| v@),
            attributes: attribute_views(self.attributes.0@),
        }
    }
}

impl Interface {
    pub fn new(hash: u64, vprocs: Vec<VProcedure>, attributes: Attributes) -> (r: Interface)
        ensures
            r.hash == hash,
            r.vprocs@ == vprocs@,
            r.attributes.0@ == attributes.0@,
    {
        Interface { hash, vprocs, attributes }
    }
}

#[derive(Debug, Clone)]
pub struct Structure {
    pub hash: u64,
    pub fields: Vec<Field>,
    pub procedures: Vec<Procedure>,
    pub attributes: Attributes,
}

pub struct StructureView {
    pub hash: u64,
    pub fields: Seq<MemberView>,
    pub procedures: Seq<ProcedureView>,
    pub attributes: Seq<AttributeView>,
}

impl View for Structure {
    type V = StructureView;

    open spec fn view(&self) -> StructureView {
        StructureView {
            hash: self.hash,
            fields: self.fields@.map_values(|f: Field| f@),
            procedures: self.procedures@.map_values(|p: Procedure| p@),
            attributes: attribute_views(self.attributes.0@),
        }
    }
}

impl Structure {
    pub fn new(hash: u64, fields: Vec<Field>, procedures: Vec<Procedure>, attributes: Attributes) -> (r:
        Structure)
        ensures
            r.hash == hash,
            r.fields@ == fields@,
            r.procedures@ == procedures@,
            r.attributes.0@ == attributes.0@,
    {
        Structure { hash, fields, procedures, attributes }
    }
}

#[derive(Debug, Clone)]
pub enum SinSection {
    Procedure(Procedure),
    Interface(Interface),
    Structure(Structure),
}

/// A section as plain values.
pub enum SinSectionView {
    Procedure(ProcedureView),
    Interface(InterfaceView),
    Structure(StructureView),
}

impl View for SinSection {
    type V = SinSectionView;

    open spec fn view(&self) -> SinSectionView {
        match self {
            SinSection::Procedure(p) => SinSectionView::Procedure(p@),
            SinSection::Interface(i) => SinSectionView::Interface(i@),
            SinSection::Structure(s) => SinSectionView::Structure(s@),
        }
    }
}

} // verus!
