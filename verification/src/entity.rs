//! Entities of the service. In this library an entity is known by its kind
//! and by the identity it carries.

use crate::identity::{Id, IdView};
use vstd::prelude::*;

verus! {

/// The kinds of entity.
#[derive(Debug, Clone, Copy, PartialEq, Eq, Structural, Hash)]
pub enum EntityKind {
    Board,
    List,
    Member,
    Card,
}

/// The mathematical value of an entity: its kind and its identity.
pub struct EntitiesView {
    pub kind: EntityKind,
    pub id: IdView,
}

/// A board, known by its identity.
#[derive(Debug, PartialEq, Eq, Hash)]
pub struct BoardEntity {
    id: Id,
}

/// A list, known by its identity.
#[derive(Debug, PartialEq, Eq, Hash)]
pub struct ListEntity {
    id: Id,
}

/// A member, known by its identity.
#[derive(Debug, PartialEq, Eq, Hash)]
pub struct MemberEntity {
    id: Id,
}

/// A card, known by its identity.
#[derive(Debug, PartialEq, Eq, Hash)]
pub struct CardEntity {
    id: Id,
}

impl View for BoardEntity {
    type V = IdView;

    closed spec fn view(&self) -> IdView {
        self.id@
    }
}

impl View for ListEntity {
    type V = IdView;

    closed spec fn view(&self) -> IdView {
        self.id@
    }
}

impl View for MemberEntity {
    type V = IdView;

    closed spec fn view(&self) -> IdView {
        self.id@
    }
}

impl View for CardEntity {
    type V = IdView;

    closed spec fn view(&self) -> IdView {
        self.id@
    }
}

impl BoardEntity {
    /// The board that carries `id`.
    pub fn new(id: Id) -> (e: BoardEntity)
        ensures
            e@ == id@,
    {
        BoardEntity { id }
    }

    /// The identity that the entity carries.
    pub fn get_id(&self) -> (id: &Id)
        ensures
            id@ == self@,
    {
        &self.id
    }
}

impl ListEntity {
    /// The list that carries `id`.
    pub fn new(id: Id) -> (e: ListEntity)
        ensures
            e@ == id@,
    {
        ListEntity { id }
    }

    /// The identity that the entity carries.
    pub fn get_id(&self) -> (id: &Id)
        ensures
            id@ == self@,
    {
        &self.id
    }
}

impl MemberEntity {
    /// The member that carries `id`.
    pub fn new(id: Id) -> (e: MemberEntity)
        ensures
            e@ == id@,
    {
        MemberEntity { id }
    }

    /// The identity that the entity carries.
    pub fn get_id(&self) -> (id: &Id)
        ensures
            id@ == self@,
    {
        &self.id
    }
}

impl CardEntity {
    /// The card that carries `id`.
    pub fn new(id: Id) -> (e: CardEntity)
        ensures
            e@ == id@,
    {
        CardEntity { id }
    }

    /// The identity that the entity carries.
    pub fn get_id(&self) -> (id: &Id)
        ensures
            id@ == self@,
    {
        &self.id
    }
}

/// An entity of any kind.
#[derive(Debug, PartialEq, Eq, Hash)]
pub enum Entities {
    Board(BoardEntity),
    List(ListEntity),
    Member(MemberEntity),
    Card(CardEntity),
}

impl View for Entities {
    type V = EntitiesView;

    open spec fn view(&self) -> EntitiesView {
        match self {
            Entities::Board(e) => EntitiesView { kind: EntityKind::Board, id: e@ },
            Entities::List(e) => EntitiesView { kind: EntityKind::List, id: e@ },
            Entities::Member(e) => EntitiesView { kind: EntityKind::Member, id: e@ },
            Entities::Card(e) => EntitiesView { kind: EntityKind::Card, id: e@ },
        }
    }
}

impl Entities {
    /// The entity of the given kind that carries `id`.
    pub fn new(kind: EntityKind, id: Id) -> (e: Entities)
        ensures
            e@ == (EntitiesView { kind, id: id@ }),
    {
        match kind {
            EntityKind::Board => Entities::Board(BoardEntity::new(id)),
            EntityKind::List => Entities::List(ListEntity::new(id)),
            EntityKind::Member => Entities::Member(MemberEntity::new(id)),
            EntityKind::Card => Entities::Card(CardEntity::new(id)),
        }
    }

    /// The identity that the entity carries, whatever its kind.
    pub fn get_id(&self) -> (id: &Id)
        ensures
            id@ == self@.id,
    {
        match self {
            Entities::Board(e) => e.get_id(),
            Entities::List(e) => e.get_id(),
            Entities::Member(e) => e.get_id(),
            Entities::Card(e) => e.get_id(),
        }
    }

    /// The kind of the entity.
    pub fn kind(&self) -> (kind: EntityKind)
        ensures
            kind == self@.kind,
    {
        match self {
            Entities::Board(_) => EntityKind::Board,
            Entities::List(_) => EntityKind::List,
            Entities::Member(_) => EntityKind::Member,
            Entities::Card(_) => EntityKind::Card,
        }
    }
}

} // verus!
