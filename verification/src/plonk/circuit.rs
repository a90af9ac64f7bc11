//! Columns, selectors, challenges and the queries a gate makes of them.

use crate::plonk::sealed;
use crate::plonk::sealed::SealedPhase;
use crate::poly::Rotation;
use vstd::prelude::*;
use vstd::std_specs::convert::FromSpecImpl;
use vstd::std_specs::convert::TryFromSpecImpl;

verus! {

/// The kind of a column.
pub trait ColumnType: Sized + Copy {
    /// The kind, as one of the three.
    spec fn kind(&self) -> Any;

    /// The kind, as one of the three.
    fn to_any(&self) -> (r: Any)
        ensures
            r == self.kind(),
    ;
}

/// A column with an index and a kind. Indices count within a kind.
#[derive(Clone, Copy, Debug)]
pub struct Column<C: ColumnType> {
    pub index: usize,
    pub column_type: C,
}

impl<C: ColumnType> Column<C> {
    pub fn new(index: usize, column_type: C) -> (r: Self)
        ensures
            r.index == index,
            r.column_type == column_type,
    {
        Column { index, column_type }
    }

    /// Index of this column.
    pub fn index(&self) -> (r: usize)
        ensures
            r == self.index,
    {
        self.index
    }

    /// Kind of this column.
    pub fn column_type(&self) -> (r: &C)
        ensures
            *r == self.column_type,
    {
        &self.column_type
    }

    /// The same column with its kind as one of the three.
    pub fn to_any(&self) -> (r: Column<Any>)
        ensures
            r.index == self.index,
            r.column_type == self.column_type.kind(),
    {
        Column { index: self.index, column_type: self.column_type.to_any() }
    }
}

/// Phase of an advice column.
pub trait Phase: SealedPhase {

}

impl<P: SealedPhase> Phase for P {

}

/// First phase.
#[derive(Clone, Copy, Debug)]
pub struct FirstPhase;

impl SealedPhase for FirstPhase {
    open spec fn number(&self) -> u8 {
        0
    }

    fn to_sealed(self) -> (p: sealed::Phase) {
        sealed::Phase(0)
    }
}

/// Second phase.
#[derive(Clone, Copy, Debug)]
pub struct SecondPhase;

impl SealedPhase for SecondPhase {
    open spec fn number(&self) -> u8 {
        1
    }

    fn to_sealed(self) -> (p: sealed::Phase) {
        sealed::Phase(1)
    }
}

/// Third phase.
#[derive(Clone, Copy, Debug)]
pub struct ThirdPhase;

impl SealedPhase for ThirdPhase {
    open spec fn number(&self) -> u8 {
        2
    }

    fn to_sealed(self) -> (p: sealed::Phase) {
        sealed::Phase(2)
    }
}

/// An advice column.
#[derive(Clone, Copy, Debug, PartialEq, Eq, Structural)]
pub struct Advice {
    pub phase: sealed::Phase,
}

impl Default for Advice {
    fn default() -> (r: Advice)
        ensures
            r.phase.0 == 0,
    {
        Advice { phase: FirstPhase.to_sealed() }
    }
}

impl Advice {
    /// Returns `Advice` in given `Phase`.
    pub fn new<P: Phase>(phase: P) -> (r: Advice)
        ensures
            r.phase.0 == phase.number(),
    {
        Advice { phase: phase.to_sealed() }
    }

    /// Phase of this column.
    pub fn phase(&self) -> (r: u8)
        ensures
            r == self.phase.0,
    {
        self.phase.0
    }
}

/// A fixed column.
#[derive(Clone, Copy, Debug, PartialEq, Eq, Structural)]
pub struct Fixed;

/// An instance column.
#[derive(Clone, Copy, Debug, PartialEq, Eq, Structural)]
pub struct Instance;

/// An enum over the Advice, Fixed, Instance structs.
#[derive(Clone, Copy, Debug, PartialEq, Eq, Structural)]
pub enum Any {
    /// An Advice variant
    Advice(Advice),
    /// A Fixed variant
    Fixed,
    /// An Instance variant
    Instance,
}

impl Any {
    /// Returns Advice variant in `FirstPhase`.
    pub fn advice() -> (r: Any)
        ensures
            r == Any::Advice(Advice { phase: sealed::Phase(0) }),
    {
        Any::Advice(Advice::default())
    }

    /// Returns Advice variant in given `Phase`.
    pub fn advice_in<P: Phase>(phase: P) -> (r: Any)
        ensures
            r == Any::Advice(Advice { phase: sealed::Phase(phase.number()) }),
    {
        Any::Advice(Advice::new(phase))
    }

    /// The place of the kind in the order of columns: instance columns
    /// first, then advice columns by phase, then fixed columns.
    pub open spec fn rank(self) -> int {
        match self {
            Any::Instance => 0,
            Any::Advice(a) => 1 + a.phase.0,
            Any::Fixed => 257,
        }
    }

    /// Whether this kind comes before `other` in the order of columns.
    pub fn precedes(&self, other: &Any) -> (r: bool)
        ensures
            r == (self.rank() < other.rank()),
    {
        match (self, other) {
            (Any::Instance, Any::Instance) => false,
            (Any::Fixed, _) => false,
            (Any::Advice(lhs), Any::Advice(rhs)) => lhs.phase.0 < rhs.phase.0,
            (Any::Instance, _) => true,
            (Any::Advice(_), Any::Fixed) => true,
            (Any::Advice(_), Any::Instance) => false,
        }
    }
}

impl ColumnType for Advice {
    open spec fn kind(&self) -> Any {
        Any::Advice(*self)
    }

    fn to_any(&self) -> (r: Any) {
        Any::Advice(*self)
    }
}

impl ColumnType for Fixed {
    open spec fn kind(&self) -> Any {
        Any::Fixed
    }

    fn to_any(&self) -> (r: Any) {
        Any::Fixed
    }
}

impl ColumnType for Instance {
    open spec fn kind(&self) -> Any {
        Any::Instance
    }

    fn to_any(&self) -> (r: Any) {
        Any::Instance
    }
}

impl ColumnType for Any {
    open spec fn kind(&self) -> Any {
        *self
    }

    fn to_any(&self) -> (r: Any) {
        *self
    }
}

impl From<Advice> for Any {
    fn from(advice: Advice) -> (r: Any) {
        Any::Advice(advice)
    }
}

impl FromSpecImpl<Advice> for Any {
    open spec fn obeys_from_spec() -> bool {
        true
    }

    open spec fn from_spec(advice: Advice) -> Any {
        Any::Advice(advice)
    }
}

impl From<Fixed> for Any {
    fn from(_fixed: Fixed) -> (r: Any) {
        Any::Fixed
    }
}

impl FromSpecImpl<Fixed> for Any {
    open spec fn obeys_from_spec() -> bool {
        true
    }

    open spec fn from_spec(_fixed: Fixed) -> Any {
        Any::Fixed
    }
}

impl From<Instance> for Any {
    fn from(_instance: Instance) -> (r: Any) {
        Any::Instance
    }
}

impl FromSpecImpl<Instance> for Any {
    open spec fn obeys_from_spec() -> bool {
        true
    }

    open spec fn from_spec(_instance: Instance) -> Any {
        Any::Instance
    }
}

impl From<Column<Advice>> for Column<Any> {
    fn from(column: Column<Advice>) -> (r: Column<Any>) {
        Column { index: column.index, column_type: Any::Advice(column.column_type) }
    }
}

impl FromSpecImpl<Column<Advice>> for Column<Any> {
    open spec fn obeys_from_spec() -> bool {
        true
    }

    open spec fn from_spec(column: Column<Advice>) -> Column<Any> {
        Column { index: column.index, column_type: Any::Advice(column.column_type) }
    }
}

impl From<Column<Fixed>> for Column<Any> {
    fn from(column: Column<Fixed>) -> (r: Column<Any>) {
        Column { index: column.index, column_type: Any::Fixed }
    }
}

impl FromSpecImpl<Column<Fixed>> for Column<Any> {
    open spec fn obeys_from_spec() -> bool {
        true
    }

    open spec fn from_spec(column: Column<Fixed>) -> Column<Any> {
        Column { index: column.index, column_type: Any::Fixed }
    }
}

impl From<Column<Instance>> for Column<Any> {
    fn from(column: Column<Instance>) -> (r: Column<Any>) {
        Column { index: column.index, column_type: Any::Instance }
    }
}

impl FromSpecImpl<Column<Instance>> for Column<Any> {
    open spec fn obeys_from_spec() -> bool {
        true
    }

    open spec fn from_spec(column: Column<Instance>) -> Column<Any> {
        Column { index: column.index, column_type: Any::Instance }
    }
}

impl TryFrom<Column<Any>> for Column<Advice> {
    type Error = &'static str;

    fn try_from(any: Column<Any>) -> (r: Result<Self, Self::Error>) {
        match any.column_type {
            Any::Advice(advice) => Ok(Column { index: any.index, column_type: advice }),
            _ => Err("Cannot convert into Column<Advice>"),
        }
    }
}

impl TryFromSpecImpl<Column<Any>> for Column<Advice> {
    open spec fn obeys_try_from_spec() -> bool {
        true
    }

    open spec fn try_from_spec(any: Column<Any>) -> Result<Self, Self::Error> {
        match any.column_type {
            Any::Advice(advice) => Ok(Column { index: any.index, column_type: advice }),
            _ => Err("Cannot convert into Column<Advice>"),
        }
    }
}

impl TryFrom<Column<Any>> for Column<Fixed> {
    type Error = &'static str;

    fn try_from(any: Column<Any>) -> (r: Result<Self, Self::Error>) {
        match any.column_type {
            Any::Fixed => Ok(Column { index: any.index, column_type: Fixed }),
            _ => Err("Cannot convert into Column<Fixed>"),
        }
    }
}

impl TryFromSpecImpl<Column<Any>> for Column<Fixed> {
    open spec fn obeys_try_from_spec() -> bool {
        true
    }

    open spec fn try_from_spec(any: Column<Any>) -> Result<Self, Self::Error> {
        match any.column_type {
            Any::Fixed => Ok(Column { index: any.index, column_type: Fixed }),
            _ => Err("Cannot convert into Column<Fixed>"),
        }
    }
}

impl TryFrom<Column<Any>> for Column<Instance> {
    type Error = &'static str;

    fn try_from(any: Column<Any>) -> (r: Result<Self, Self::Error>) {
        match any.column_type {
            Any::Instance => Ok(Column { index: any.index, column_type: Instance }),
            _ => Err("Cannot convert into Column<Instance>"),
        }
    }
}

impl TryFromSpecImpl<Column<Any>> for Column<Instance> {
    open spec fn obeys_try_from_spec() -> bool {
        true
    }

    open spec fn try_from_spec(any: Column<Any>) -> Result<Self, Self::Error> {
        match any.column_type {
            Any::Instance => Ok(Column { index: any.index, column_type: Instance }),
            _ => Err("Cannot convert into Column<Instance>"),
        }
    }
}

impl Column<Any> {
    /// This column as an advice column, where it is one.
    pub fn to_advice(&self) -> (r: Option<Column<Advice>>)
        ensures
            match self.column_type {
                Any::Advice(a) => r == Some(Column { index: self.index, column_type: a }),
                _ => r.is_none(),
            },
    {
        match self.column_type {
            Any::Advice(advice) => Some(Column { index: self.index, column_type: advice }),
            _ => None,
        }
    }

    /// This column as a fixed column, where it is one.
    pub fn to_fixed(&self) -> (r: Option<Column<Fixed>>)
        ensures
            match self.column_type {
                Any::Fixed => r == Some(Column { index: self.index, column_type: Fixed }),
                _ => r.is_none(),
            },
    {
        match self.column_type {
            Any::Fixed => Some(Column { index: self.index, column_type: Fixed }),
            _ => None,
        }
    }

    /// This column as an instance column, where it is one.
    pub fn to_instance(&self) -> (r: Option<Column<Instance>>)
        ensures
            match self.column_type {
                Any::Instance => r == Some(Column { index: self.index, column_type: Instance }),
                _ => r.is_none(),
            },
    {
        match self.column_type {
            Any::Instance => Some(Column { index: self.index, column_type: Instance }),
            _ => None,
        }
    }

    /// Whether this column comes before `other`: by kind, then by index.
    pub fn precedes(&self, other: &Column<Any>) -> (r: bool)
        ensures
            r == (self.column_type.rank() < other.column_type.rank() || (self.column_type.rank()
                == other.column_type.rank() && self.index < other.index)),
    {
        if self.column_type.precedes(&other.column_type) {
            true
        } else if other.column_type.precedes(&self.column_type) {
            false
        } else {
            self.index < other.index
        }
    }
}

/// A selector, representing a fixed boolean value per row of the circuit.
///
/// A simple selector may only be multiplied by expressions that hold no
/// other simple selector.
#[derive(Clone, Copy, Debug, PartialEq, Eq, Structural)]
pub struct Selector(pub usize, pub bool);

impl Selector {
    /// Index of this selector.
    pub fn index(&self) -> (r: usize)
        ensures
            r == self.0,
    {
        self.0
    }

    /// Is this selector "simple"?
    pub fn is_simple(&self) -> (r: bool)
        ensures
            r == self.1,
    {
        self.1
    }
}

/// Query of fixed column at a certain relative location.
#[derive(Clone, Copy, Debug, PartialEq, Eq, Structural)]
pub struct FixedQuery {
    /// Query index
    pub index: usize,
    /// Column index
    pub column_index: usize,
    /// Rotation of this query
    pub rotation: Rotation,
}

impl FixedQuery {
    /// Index
    pub fn index(&self) -> (r: usize)
        ensures
            r == self.index,
    {
        self.index
    }

    /// Column index
    pub fn column_index(&self) -> (r: usize)
        ensures
            r == self.column_index,
    {
        self.column_index
    }

    /// Rotation of this query
    pub fn rotation(&self) -> (r: Rotation)
        ensures
            r == self.rotation,
    {
        self.rotation
    }
}

/// Query of advice column at a certain relative location.
#[derive(Clone, Copy, Debug, PartialEq, Eq, Structural)]
pub struct AdviceQuery {
    /// Query index
    pub index: usize,
    /// Column index
    pub column_index: usize,
    /// Rotation of this query
    pub rotation: Rotation,
    /// Phase of this advice column
    pub phase: sealed::Phase,
}

impl AdviceQuery {
    /// Index
    pub fn index(&self) -> (r: usize)
        ensures
            r == self.index,
    {
        self.index
    }

    /// Column index
    pub fn column_index(&self) -> (r: usize)
        ensures
            r == self.column_index,
    {
        self.column_index
    }

    /// Rotation of this query
    pub fn rotation(&self) -> (r: Rotation)
        ensures
            r == self.rotation,
    {
        self.rotation
    }

    /// Phase of this advice column
    pub fn phase(&self) -> (r: u8)
        ensures
            r == self.phase.0,
    {
        self.phase.0
    }
}

/// Query of instance column at a certain relative location.
#[derive(Clone, Copy, Debug, PartialEq, Eq, Structural)]
pub struct InstanceQuery {
    /// Query index
    pub index: usize,
    /// Column index
    pub column_index: usize,
    /// Rotation of this query
    pub rotation: Rotation,
}

impl InstanceQuery {
    /// Index
    pub fn index(&self) -> (r: usize)
        ensures
            r == self.index,
    {
        self.index
    }

    /// Column index
    pub fn column_index(&self) -> (r: usize)
        ensures
            r == self.column_index,
    {
        self.column_index
    }

    /// Rotation of this query
    pub fn rotation(&self) -> (r: Rotation)
        ensures
            r == self.rotation,
    {
        self.rotation
    }
}

/// A fixed column of a lookup table.
#[derive(Clone, Copy, Debug)]
pub struct TableColumn {
    /// The fixed column that this table column is stored in.
    pub inner: Column<Fixed>,
}

impl TableColumn {
    pub fn inner(&self) -> (r: Column<Fixed>)
        ensures
            r == self.inner,
    {
        self.inner
    }
}

/// A challenge squeezed from the transcript after the advice columns of its
/// phase have been committed.
#[derive(Clone, Copy, Debug, PartialEq, Eq, Structural)]
pub struct Challenge {
    pub index: usize,
    pub phase: sealed::Phase,
}

impl Challenge {
    /// Index of this challenge.
    pub fn index(&self) -> (r: usize)
        ensures
            r == self.index,
    {
        self.index
    }

    /// Phase of this challenge.
    pub fn phase(&self) -> (r: u8)
        ensures
            r == self.phase.0,
    {
        self.phase.0
    }
}

/// A cell that a gate has queried at a relative offset.
#[derive(Clone, Copy, Debug)]
pub struct VirtualCell {
    pub column: Column<Any>,
    pub rotation: Rotation,
}

impl VirtualCell {
    /// The cell of `column` at `rotation`.
    pub fn new<C: ColumnType>(column: Column<C>, rotation: Rotation) -> (r: VirtualCell)
        ensures
            r.column.index == column.index,
            r.column.column_type == column.column_type.kind(),
            r.rotation == rotation,
    {
        VirtualCell { column: column.to_any(), rotation }
    }
}

} // verus!
