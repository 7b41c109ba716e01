use std::rc::Rc;

use fixedbitset::FixedBitSet;
use vstd::prelude::*;
use vstd::string::StringExecFns;

use crate::expr::{has_window, return_type_of, ExprImpl, InputRef, OrderByExpr, WindowFunction};
use crate::window::{AggKind, WindowFuncKind};

verus! {

#[verifier::external_type_specification]
#[verifier::external_body]
pub struct ExFixedBitSet(FixedBitSet);

/// The bits that are set in a bitset.
pub uninterp spec fn bitset_ones(b: FixedBitSet) -> Set<usize>;

/// The number of bits of a bitset, set or not.
pub uninterp spec fn bitset_len(b: FixedBitSet) -> nat;

/// Relies on `FixedBitSet::with_capacity`: a bitset of `bits` bits, none set.
#[verifier::external_body]
fn bitset_with_capacity(bits: usize) -> (r: FixedBitSet)
    ensures
        bitset_len(r) == bits,
        bitset_ones(r) == Set::<usize>::empty(),
{
    FixedBitSet::with_capacity(bits)
}

/// Relies on `FixedBitSet::insert`: sets bit `bit` and keeps the length; it
/// panics when `bit` is not below the length.
#[verifier::external_body]
fn bitset_insert(b: &mut FixedBitSet, bit: usize)
    requires
        bit < bitset_len(*old(b)),
    ensures
        bitset_len(*final(b)) == bitset_len(*old(b)),
        bitset_ones(*final(b)) == bitset_ones(*old(b)).insert(bit),
{
    b.insert(bit)
}

/// Relies on `Rc::clone`: another pointer to the same value.
#[verifier::external_body]
fn share<T>(r: &Rc<T>) -> (s: Rc<T>)
    ensures
        s == *r,
{
    Rc::clone(r)
}

#[derive(Debug, Clone, Copy, PartialEq, Eq, Hash, Structural)]
pub enum DataType {
    Boolean,
    Int16,
    Int32,
    Int64,
    Varchar,
    Timestamp,
}

/// A named, typed column of a schema.
#[derive(Debug, Clone, PartialEq, Eq, Hash)]
pub struct Field {
    pub data_type: DataType,
    pub name: String,
}

/// The columns that a plan node outputs.
#[derive(Debug, Clone, PartialEq, Eq, Hash)]
pub struct Schema {
    pub fields: Vec<Field>,
}

/// A plan node as its parents see it: the columns it outputs, and the
/// union node itself when it is one.
#[derive(Debug)]
pub struct PlanRef {
    pub schema: Schema,
    pub logical_union: Option<Box<LogicalUnion>>,
}

impl PlanRef {
    /// A plan that outputs `schema` and is no node of this library.
    pub fn leaf(schema: Schema) -> (r: PlanRef)
        ensures
            r.schema == schema,
            r.logical_union is None,
    {
        PlanRef { schema, logical_union: None }
    }

    /// The union node, when the plan is one.
    pub fn as_logical_union(&self) -> (r: Option<&LogicalUnion>)
        ensures
            r == (match self.logical_union {
                Some(u) => Some(&*u),
                None => None::<&LogicalUnion>,
            }),
    {
        match &self.logical_union {
            Some(u) => Some(&**u),
            None => None,
        }
    }
}

/// What every logical plan node derives from its inputs.
#[derive(Debug, Clone, PartialEq, Eq, Hash)]
pub struct PlanBase {
    pub schema: Schema,
}

impl DataType {
    pub fn is_int(&self) -> (r: bool)
        ensures
            r == is_int_type(*self),
    {
        matches!(self, DataType::Int16 | DataType::Int32 | DataType::Int64)
    }
}

pub open spec fn fields_view(fields: Seq<Field>) -> Seq<(DataType, Seq<char>)> {
    fields.map_values(|f: Field| (f.data_type, f.name@))
}

impl Schema {
    pub open spec fn view_fields(self) -> Seq<(DataType, Seq<char>)> {
        fields_view(self.fields@)
    }

    /// A copy of the schema.
    pub fn duplicate(&self) -> (r: Schema)
        ensures
            r.view_fields() == self.view_fields(),
    {
        let mut fields: Vec<Field> = Vec::new();
        let mut i: usize = 0;
        while i < self.fields.len()
            invariant
                i <= self.fields.len(),
                fields@.len() == i,
                forall|j: int| 0 <= j < i ==> #[trigger] fields@[j].data_type == self.fields@[j].data_type
                    && fields@[j].name@ == self.fields@[j].name@,
            decreases self.fields.len() - i,
        {
            let f = &self.fields[i];
            fields.push(Field { data_type: f.data_type, name: f.name.clone() });
            i = i + 1;
        }
        let r = Schema { fields };
        assert(r.view_fields() =~= self.view_fields());
        r
    }

    /// The number of columns.
    pub fn len(&self) -> (r: usize)
        ensures
            r == self.view_fields().len(),
    {
        self.fields.len()
    }
}

/// The union of the rows of its inputs.
#[derive(Debug)]
pub struct Union {
    /// Whether duplicates stay; if not, they must be eliminated.
    pub all: bool,
    pub inputs: Vec<PlanRef>,
    /// The column that tells which input a row came from.
    pub source_col: Option<usize>,
}

/// `LogicalUnion` returns the union of the rows of its inputs. If `all` is
/// false, it needs to eliminate duplicates. Its schema is that of its first input.
#[derive(Debug)]
pub struct LogicalUnion {
    pub base: PlanBase,
    core: Union,
}

impl LogicalUnion {
    pub closed spec fn plan_base(self) -> PlanBase {
        self.base
    }

    pub closed spec fn core_all(self) -> bool {
        self.core.all
    }

    pub closed spec fn core_source_col(self) -> Option<usize> {
        self.core.source_col
    }

    pub closed spec fn core_inputs(self) -> Seq<PlanRef> {
        self.core.inputs@
    }

    pub fn new(all: bool, inputs: Vec<PlanRef>) -> (r: Self)
        requires
            inputs@.len() > 0,
        ensures
            r.core_all() == all,
            r.core_inputs() == inputs@,
            r.core_source_col() is None,
            r.plan_base().schema.view_fields() == inputs@[0].schema.view_fields(),
    {
        Self::new_with_source_col(all, inputs, None)
    }

    /// Used by streaming: `source_col` identifies the input that a record came from.
    pub fn new_with_source_col(all: bool, inputs: Vec<PlanRef>, source_col: Option<usize>) -> (r: Self)
        requires
            inputs@.len() > 0,
        ensures
            r.core_all() == all,
            r.core_inputs() == inputs@,
            r.core_source_col() == source_col,
            r.plan_base().schema.view_fields() == inputs@[0].schema.view_fields(),
    {
        let schema = inputs[0].schema.duplicate();
        let core = Union { all, inputs, source_col };
        LogicalUnion { base: PlanBase { schema }, core }
    }

    /// The union of `inputs`, as a plan.
    pub fn create(all: bool, inputs: Vec<PlanRef>) -> (r: PlanRef)
        requires
            inputs@.len() > 0,
        ensures
            r.schema.view_fields() == inputs@[0].schema.view_fields(),
            r.logical_union matches Some(u) && {
                &&& u.core_all() == all
                &&& u.core_inputs() == inputs@
                &&& u.core_source_col() is None
                &&& u.plan_base().schema.view_fields() == inputs@[0].schema.view_fields()
            },
    {
        let union = LogicalUnion::new(all, inputs);
        let schema = union.base.schema.duplicate();
        PlanRef { schema, logical_union: Some(Box::new(union)) }
    }

    pub fn all(&self) -> (r: bool)
        ensures
            r == self.core_all(),
    {
        self.core.all
    }

    pub fn source_col(&self) -> (r: Option<usize>)
        ensures
            r == self.core_source_col(),
    {
        self.core.source_col
    }

    /// The inputs, in order.
    pub fn inputs(&self) -> (r: &[PlanRef])
        ensures
            r@ == self.core_inputs(),
    {
        self.core.inputs.as_slice()
    }
}

#[derive(Debug, Clone, Copy, PartialEq, Eq, Hash, Structural)]
pub enum OrderType {
    Ascending,
    Descending,
}

/// A column and the direction to sort it in.
#[derive(Debug, Clone, Copy, PartialEq, Eq, Hash, Structural)]
pub struct ColumnOrder {
    pub column_index: usize,
    pub order_type: OrderType,
}

#[derive(Debug, Clone, Copy, PartialEq, Eq, Hash, Structural)]
pub enum FrameBound {
    UnboundedPreceding,
    Preceding(usize),
    CurrentRow,
    Following(usize),
    UnboundedFollowing,
}

/// The rows of a window frame, between two bounds.
#[derive(Debug, Clone, Copy, PartialEq, Eq, Hash, Structural)]
pub enum Frame {
    Rows(FrameBound, FrameBound),
}

/// A window function over input columns.
#[derive(Debug, Clone, PartialEq, Eq, Hash)]
pub struct PlanWindowFunction {
    pub kind: WindowFuncKind,
    pub return_type: DataType,
    pub args: Vec<InputRef>,
    pub partition_by: Vec<InputRef>,
    pub order_by: Vec<ColumnOrder>,
    pub frame: Option<Frame>,
}

/// A planned window function as a mathematical value.
pub struct PlanWindowFunctionView {
    pub kind: WindowFuncKind,
    pub return_type: DataType,
    pub args: Seq<InputRef>,
    pub partition_by: Seq<InputRef>,
    pub order_by: Seq<ColumnOrder>,
    pub frame: Option<Frame>,
}

impl View for PlanWindowFunction {
    type V = PlanWindowFunctionView;

    open spec fn view(&self) -> PlanWindowFunctionView {
        PlanWindowFunctionView {
            kind: self.kind,
            return_type: self.return_type,
            args: self.args@,
            partition_by: self.partition_by@,
            order_by: self.order_by@,
            frame: self.frame,
        }
    }
}

/// Why a window function cannot be planned.
#[derive(Debug, Clone, Copy, PartialEq, Eq, Structural)]
pub enum PlanError {
    /// A window function inside another expression.
    WindowFunctionInExpression,
    /// A ranking window function without `ORDER BY`.
    RankWithoutOrderBy,
    /// `dense_rank` is not supported yet.
    DenseRankNotImplemented,
    /// An `ORDER BY` key that is not a column.
    OrderByExpression,
    /// A `PARTITION BY` key that is not a column.
    PartitionByExpression,
    /// An argument that is not a column.
    ArgumentExpression,
    /// The offset of `lag` or `lead` is not an integer.
    NonIntegerOffset(WindowFuncKind),
    /// The offset of `lag` or `lead` is not a constant.
    NonConstantOffset,
}

/// Every expression is a column reference.
pub open spec fn all_refs(s: Seq<ExprImpl>) -> bool {
    forall|i: int| 0 <= i < s.len() ==> #[trigger] s[i] is InputRef
}

/// The column references of `s`.
pub open spec fn refs_of(s: Seq<ExprImpl>) -> Seq<InputRef> {
    s.map_values(|e: ExprImpl| e->InputRef_0)
}

/// Every sort key is a column reference.
pub open spec fn order_keys_ok(o: Seq<OrderByExpr>) -> bool {
    forall|i: int| 0 <= i < o.len() ==> (#[trigger] o[i]).expr is InputRef
}

pub open spec fn column_orders(o: Seq<OrderByExpr>) -> Seq<ColumnOrder> {
    o.map_values(|x: OrderByExpr| ColumnOrder { column_index: x.expr->InputRef_0.index, order_type: x.order_type })
}

pub open spec fn is_int_type(t: DataType) -> bool {
    t is Int16 || t is Int32 || t is Int64
}

/// The offset of `lag` or `lead`, from its second argument (one when there is
/// none, or when it is null), and the arguments without it.
pub open spec fn offset_and_args(kind: WindowFuncKind, args: Seq<ExprImpl>) -> Result<(usize, Seq<ExprImpl>), PlanError> {
    if args.len() > 1 {
        let o = args[1];
        if !is_int_type(return_type_of(o)) {
            Err(PlanError::NonIntegerOffset(kind))
        } else {
            match o {
                ExprImpl::Literal(l) => Ok((
                    match l.value {
                        Some(v) => v as usize,
                        None => 1,
                    },
                    args.remove(1),
                )),
                _ => Err(PlanError::NonConstantOffset),
            }
        }
    } else {
        Ok((1, args))
    }
}

/// The frame of a window function and the arguments left once the frame is
/// settled: none for ranking, one derived from the offset for `lag` and
/// `lead`, the written one otherwise.
pub open spec fn frame_and_args(w: WindowFunction) -> Result<(Option<Frame>, Seq<ExprImpl>), PlanError> {
    match w.kind {
        WindowFuncKind::RowNumber | WindowFuncKind::Rank | WindowFuncKind::DenseRank => Ok((None, w.args@)),
        WindowFuncKind::Lag | WindowFuncKind::Lead => match offset_and_args(w.kind, w.args@) {
            Err(e) => Err(e),
            Ok((offset, rest)) => Ok((
                Some(
                    if w.kind is Lag {
                        Frame::Rows(FrameBound::Preceding(offset), FrameBound::CurrentRow)
                    } else {
                        Frame::Rows(FrameBound::CurrentRow, FrameBound::Following(offset))
                    },
                ),
                rest,
            )),
        },
        _ => Ok((w.frame, w.args@)),
    }
}

/// A window function over input columns, or why it cannot be one.
pub open spec fn convert_spec(w: WindowFunction) -> Result<PlanWindowFunctionView, PlanError> {
    if !order_keys_ok(w.order_by@) {
        Err(PlanError::OrderByExpression)
    } else if !all_refs(w.partition_by@) {
        Err(PlanError::PartitionByExpression)
    } else {
        match frame_and_args(w) {
            Err(e) => Err(e),
            Ok((frame, args)) => if !all_refs(args) {
                Err(PlanError::ArgumentExpression)
            } else {
                Ok(PlanWindowFunctionView {
                    kind: w.kind,
                    return_type: w.return_type,
                    args: refs_of(args),
                    partition_by: refs_of(w.partition_by@),
                    order_by: column_orders(w.order_by@),
                    frame,
                })
            },
        }
    }
}

/// The column references of `s`, or `None` if one is not a column.
fn collect_refs(s: &Vec<ExprImpl>) -> (r: Option<Vec<InputRef>>)
    ensures
        r is Some <==> all_refs(s@),
        r matches Some(v) ==> v@ == refs_of(s@),
{
    let mut out: Vec<InputRef> = Vec::new();
    let mut i: usize = 0;
    while i < s.len()
        invariant
            i <= s@.len(),
            out@ == refs_of(s@.take(i as int)),
            all_refs(s@.take(i as int)),
        decreases s@.len() - i,
    {
        match &s[i] {
            ExprImpl::InputRef(r) => {
                out.push(*r);
            },
            _ => {
                assert(!all_refs(s@)) by {
                    assert(!(s@[i as int] is InputRef));
                }
                return None;
            },
        }
        i = i + 1;
        assert(s@.take(i as int) =~= s@.take(i - 1).push(s@[i - 1]));
        assert(out@ =~= refs_of(s@.take(i as int)));
    }
    assert(s@.take(s@.len() as int) =~= s@);
    Some(out)
}

/// The sort keys as columns, or `None` if one is not a column.
fn collect_orders(o: &Vec<OrderByExpr>) -> (r: Option<Vec<ColumnOrder>>)
    ensures
        r is Some <==> order_keys_ok(o@),
        r matches Some(v) ==> v@ == column_orders(o@),
{
    let mut out: Vec<ColumnOrder> = Vec::new();
    let mut i: usize = 0;
    while i < o.len()
        invariant
            i <= o@.len(),
            out@ == column_orders(o@.take(i as int)),
            order_keys_ok(o@.take(i as int)),
        decreases o@.len() - i,
    {
        match &o[i].expr {
            ExprImpl::InputRef(r) => {
                out.push(ColumnOrder { column_index: r.index, order_type: o[i].order_type });
            },
            _ => {
                assert(!order_keys_ok(o@)) by {
                    assert(!(o@[i as int].expr is InputRef));
                }
                return None;
            },
        }
        i = i + 1;
        assert(o@.take(i as int) =~= o@.take(i - 1).push(o@[i - 1]));
        assert(out@ =~= column_orders(o@.take(i as int)));
    }
    assert(o@.take(o@.len() as int) =~= o@);
    Some(out)
}

/// Window functions computed over an input.
#[derive(Debug)]
pub struct OverWindow {
    pub window_functions: Vec<PlanWindowFunction>,
    pub input: PlanRef,
}

/// `LogicalOverAgg` performs `OVER` window aggregates on its input. Its
/// schema is the input's followed by one column per window function.
#[derive(Debug)]
pub struct LogicalOverAgg {
    pub base: PlanBase,
    core: OverWindow,
}

/// The name of a window function's output column, in snake case.
pub open spec fn kind_name(k: WindowFuncKind) -> Seq<char> {
    match k {
        WindowFuncKind::RowNumber => "row_number"@,
        WindowFuncKind::Rank => "rank"@,
        WindowFuncKind::DenseRank => "dense_rank"@,
        WindowFuncKind::Lag => "lag"@,
        WindowFuncKind::Lead => "lead"@,
        WindowFuncKind::Aggregate(a) => match a {
            AggKind::Min => "min"@,
            AggKind::Max => "max"@,
            AggKind::Sum => "sum"@,
            AggKind::Count => "count"@,
            AggKind::Avg => "avg"@,
        },
    }
}

/// The name of a window function's output column.
pub fn window_func_name(k: WindowFuncKind) -> (r: String)
    ensures
        r@ == kind_name(k),
{
    match k {
        WindowFuncKind::RowNumber => String::from_str("row_number"),
        WindowFuncKind::Rank => String::from_str("rank"),
        WindowFuncKind::DenseRank => String::from_str("dense_rank"),
        WindowFuncKind::Lag => String::from_str("lag"),
        WindowFuncKind::Lead => String::from_str("lead"),
        WindowFuncKind::Aggregate(a) => match a {
            AggKind::Min => String::from_str("min"),
            AggKind::Max => String::from_str("max"),
            AggKind::Sum => String::from_str("sum"),
            AggKind::Count => String::from_str("count"),
            AggKind::Avg => String::from_str("avg"),
        },
    }
}

/// The output columns of window functions `calls` over an input with `input` columns.
pub open spec fn over_window_fields(
    input: Seq<(DataType, Seq<char>)>,
    calls: Seq<PlanWindowFunction>,
) -> Seq<(DataType, Seq<char>)> {
    input + calls.map_values(|c: PlanWindowFunction| (c.return_type, kind_name(c.kind)))
}

impl LogicalOverAgg {
    pub closed spec fn plan_base(self) -> PlanBase {
        self.base
    }

    pub closed spec fn core_window_functions(self) -> Seq<PlanWindowFunction> {
        self.core.window_functions@
    }

    pub fn new(calls: Vec<PlanWindowFunction>, input: PlanRef) -> (r: Self)
        ensures
            r.core_window_functions() == calls@,
            r.plan_base().schema.view_fields() == over_window_fields(input.schema.view_fields(), calls@),
    {
        let mut schema = input.schema.duplicate();
        let mut i: usize = 0;
        while i < calls.len()
            invariant
                i <= calls.len(),
                schema.view_fields() == over_window_fields(input.schema.view_fields(), calls@.take(i as int)),
            decreases calls.len() - i,
        {
            let name = window_func_name(calls[i].kind);
            let ghost prev = schema.view_fields();
            let ghost item = (calls@[i as int].return_type, kind_name(calls@[i as int].kind));
            schema.fields.push(Field { data_type: calls[i].return_type, name });
            assert(schema.view_fields() =~= prev.push(item));
            assert(calls@.take(i + 1) =~= calls@.take(i as int).push(calls@[i as int]));
            assert(calls@.take(i + 1).map_values(|c: PlanWindowFunction| (c.return_type, kind_name(c.kind)))
                =~= calls@.take(i as int).map_values(|c: PlanWindowFunction| (c.return_type, kind_name(c.kind))).push(item));
            i = i + 1;
            assert(schema.view_fields() =~= over_window_fields(input.schema.view_fields(), calls@.take(i as int)));
        }
        assert(calls@.take(calls.len() as int) =~= calls@);
        LogicalOverAgg { base: PlanBase { schema }, core: OverWindow { window_functions: calls, input } }
    }

    pub fn window_functions(&self) -> (r: &[PlanWindowFunction])
        ensures
            r@ == self.core_window_functions(),
    {
        self.core.window_functions.as_slice()
    }
}

/// Marks a column whose watermark the source produces.
#[derive(Debug, Clone, Copy, PartialEq, Eq, Hash, Structural)]
pub struct WatermarkDesc {
    pub watermark_idx: u32,
}

#[derive(Debug, Clone, PartialEq, Eq, Hash)]
pub struct SourceCatalog {
    pub id: u32,
    pub name: String,
    pub append_only: bool,
    pub watermark_descs: Vec<WatermarkDesc>,
}

/// A table or connector source, before it is placed in a stream plan.
#[derive(Debug, Clone)]
pub struct Source {
    pub catalog: Option<Rc<SourceCatalog>>,
    pub schema: Schema,
}

#[derive(Debug, Clone, Copy, PartialEq, Eq, Hash, Structural)]
pub enum Distribution {
    Single,
    SomeShard,
}

/// What every stream plan node derives from its inputs.
#[derive(Debug)]
pub struct StreamPlanBase {
    pub schema: Schema,
    pub distribution: Distribution,
    pub append_only: bool,
    pub watermark_columns: FixedBitSet,
}

/// A table or connector source at the very beginning of a stream graph.
#[derive(Debug)]
pub struct StreamSource {
    pub base: StreamPlanBase,
    logical: Source,
}

/// The columns that `descs` mark.
pub open spec fn watermark_set(descs: Seq<WatermarkDesc>) -> Set<usize>
    decreases descs.len(),
{
    if descs.len() == 0 {
        Set::empty()
    } else {
        watermark_set(descs.drop_last()).insert(descs.last().watermark_idx as usize)
    }
}

/// Every column that `descs` mark exists among `n` columns.
pub open spec fn watermarks_in_range(descs: Seq<WatermarkDesc>, n: nat) -> bool {
    forall|k: int| 0 <= k < descs.len() ==> (#[trigger] descs[k]).watermark_idx < n
}

impl StreamSource {
    pub closed spec fn plan_base(self) -> StreamPlanBase {
        self.base
    }

    pub closed spec fn logical_source(self) -> Source {
        self.logical
    }

    /// Places `logical` in a stream plan: sharded, append-only unless its
    /// catalog says otherwise, with the watermark columns its catalog marks.
    pub fn new(logical: Source) -> (r: Self)
        requires
            logical.catalog matches Some(c) ==> watermarks_in_range(c.watermark_descs@, logical.schema.view_fields().len()),
        ensures
            r.logical_source() == logical,
            r.plan_base().schema.view_fields() == logical.schema.view_fields(),
            r.plan_base().distribution == Distribution::SomeShard,
            r.plan_base().append_only == (match logical.catalog {
                Some(c) => c.append_only,
                None => true,
            }),
            bitset_len(r.plan_base().watermark_columns) == logical.schema.view_fields().len(),
            bitset_ones(r.plan_base().watermark_columns) == (match logical.catalog {
                Some(c) => watermark_set(c.watermark_descs@),
                None => Set::<usize>::empty(),
            }),
    {
        let schema = logical.schema.duplicate();
        let mut watermark_columns = bitset_with_capacity(schema.len());
        let mut append_only = true;
        match &logical.catalog {
            Some(catalog) => {
                let descs = &catalog.watermark_descs;
                let mut k: usize = 0;
                while k < descs.len()
                    invariant
                        k <= descs@.len(),
                        watermarks_in_range(descs@, schema.view_fields().len()),
                        bitset_len(watermark_columns) == schema.view_fields().len(),
                        bitset_ones(watermark_columns) == watermark_set(descs@.take(k as int)),
                    decreases descs@.len() - k,
                {
                    let idx = descs[k].watermark_idx;
                    assert(descs@[k as int].watermark_idx < schema.view_fields().len());
                    bitset_insert(&mut watermark_columns, idx as usize);
                    assert(descs@.take(k + 1).drop_last() =~= descs@.take(k as int));
                    k = k + 1;
                }
                assert(descs@.take(descs@.len() as int) =~= descs@);
                append_only = catalog.append_only;
            },
            None => {},
        }
        StreamSource {
            base: StreamPlanBase { schema, distribution: Distribution::SomeShard, append_only, watermark_columns },
            logical,
        }
    }

    pub fn source_catalog(&self) -> (r: Option<Rc<SourceCatalog>>)
        ensures
            r == self.logical_source().catalog,
    {
        match &self.logical.catalog {
            Some(c) => Some(share(c)),
            None => None,
        }
    }

    /// The names of the output columns, in order.
    pub fn column_names(&self) -> (r: Vec<String>)
        ensures
            r@.map_values(|s: String| s@) == self.plan_base().schema.view_fields().map_values(
                |f: (DataType, Seq<char>)| f.1,
            ),
    {
        let fields = &self.base.schema.fields;
        let mut names: Vec<String> = Vec::new();
        let mut i: usize = 0;
        while i < fields.len()
            invariant
                i <= fields@.len(),
                names@.len() == i,
                forall|j: int| 0 <= j < i ==> (#[trigger] names@[j])@ == fields@[j].name@,
            decreases fields@.len() - i,
        {
            names.push(fields[i].name.clone());
            i = i + 1;
        }
        assert(names@.map_values(|s: String| s@) =~= self.plan_base().schema.view_fields().map_values(
            |f: (DataType, Seq<char>)| f.1,
        ));
        names
    }
}

/// The window functions at the top of `exprs`, in order.
pub open spec fn window_calls(exprs: Seq<ExprImpl>) -> Seq<WindowFunction>
    decreases exprs.len(),
{
    if exprs.len() == 0 {
        Seq::empty()
    } else {
        let prev = window_calls(exprs.drop_last());
        match exprs.last() {
            ExprImpl::WindowFunction(w) => prev.push(*w),
            _ => prev,
        }
    }
}

/// `exprs` with each top-level window function replaced by a reference to
/// its output column: the `j`-th one becomes column `input_len + j`.
pub open spec fn rewritten(exprs: Seq<ExprImpl>, input_len: nat) -> Seq<ExprImpl>
    decreases exprs.len(),
{
    if exprs.len() == 0 {
        Seq::empty()
    } else {
        let prev = rewritten(exprs.drop_last(), input_len);
        match exprs.last() {
            ExprImpl::WindowFunction(w) => prev.push(
                ExprImpl::InputRef(
                    InputRef {
                        index: (input_len + window_calls(exprs.drop_last()).len()) as usize,
                        data_type: w.return_type,
                    },
                ),
            ),
            e => prev.push(e),
        }
    }
}

/// Some expression holds a window function below its top.
pub open spec fn nested_window(exprs: Seq<ExprImpl>) -> bool {
    exists|i: int| 0 <= i < exprs.len() && !(exprs[i] is WindowFunction) && #[trigger] has_window(exprs[i])
}

pub open spec fn is_rank_kind(k: WindowFuncKind) -> bool {
    k is RowNumber || k is Rank || k is DenseRank
}

/// Why a ranking window function cannot be planned, if it cannot.
pub open spec fn rank_error_of(f: WindowFunction) -> Option<PlanError> {
    if is_rank_kind(f.kind) && f.order_by@.len() == 0 {
        Some(PlanError::RankWithoutOrderBy)
    } else if f.kind is DenseRank {
        Some(PlanError::DenseRankNotImplemented)
    } else {
        None
    }
}

/// The first ranking error among `calls`.
pub open spec fn rank_error(calls: Seq<WindowFunction>) -> Option<PlanError>
    decreases calls.len(),
{
    if calls.len() == 0 {
        None
    } else {
        match rank_error(calls.drop_last()) {
            Some(e) => Some(e),
            None => rank_error_of(calls.last()),
        }
    }
}

/// Every call converted, or the first error.
pub open spec fn convert_calls(calls: Seq<WindowFunction>) -> Result<Seq<PlanWindowFunctionView>, PlanError>
    decreases calls.len(),
{
    if calls.len() == 0 {
        Ok(Seq::empty())
    } else {
        match convert_calls(calls.drop_last()) {
            Err(e) => Err(e),
            Ok(prev) => match convert_spec(calls.last()) {
                Err(e) => Err(e),
                Ok(v) => Ok(prev.push(v)),
            },
        }
    }
}

/// What planning the window functions of `exprs` over `input_len` columns
/// yields: the window functions and the rewritten expressions, or why it fails.
pub open spec fn create_spec(input_len: nat, exprs: Seq<ExprImpl>) -> Result<
    (Seq<PlanWindowFunctionView>, Seq<ExprImpl>),
    PlanError,
> {
    if nested_window(exprs) {
        Err(PlanError::WindowFunctionInExpression)
    } else {
        match rank_error(window_calls(exprs)) {
            Some(e) => Err(e),
            None => match convert_calls(window_calls(exprs)) {
                Err(e) => Err(e),
                Ok(v) => Ok((v, rewritten(exprs, input_len))),
            },
        }
    }
}

pub open spec fn plan_views(v: Seq<PlanWindowFunction>) -> Seq<PlanWindowFunctionView> {
    v.map_values(|p: PlanWindowFunction| p@)
}

proof fn lemma_rank_error_prefix(calls: Seq<WindowFunction>, k: int, j: int)
    requires
        0 <= k <= j <= calls.len(),
        rank_error(calls.take(k)) is Some,
    ensures
        rank_error(calls.take(j)) == rank_error(calls.take(k)),
    decreases j - k,
{
    if j > k {
        lemma_rank_error_prefix(calls, k, j - 1);
        assert(calls.take(j).drop_last() =~= calls.take(j - 1));
    }
}

proof fn lemma_convert_error_prefix(calls: Seq<WindowFunction>, k: int, j: int)
    requires
        0 <= k <= j <= calls.len(),
        convert_calls(calls.take(k)) is Err,
    ensures
        convert_calls(calls.take(j)) == convert_calls(calls.take(k)),
    decreases j - k,
{
    if j > k {
        lemma_convert_error_prefix(calls, k, j - 1);
        assert(calls.take(j).drop_last() =~= calls.take(j - 1));
    }
}

impl LogicalOverAgg {
    fn convert_window_function(window_function: WindowFunction) -> (r: Result<PlanWindowFunction, PlanError>)
        ensures
            match convert_spec(window_function) {
                Ok(v) => r matches Ok(p) && p@ == v,
                Err(e) => r == Err::<PlanWindowFunction, PlanError>(e),
            },
    {
        let ghost w = window_function;
        let WindowFunction { kind, args, return_type, partition_by, order_by, frame } = window_function;
        let order_by = match collect_orders(&order_by) {
            Some(v) => v,
            None => {
                return Err(PlanError::OrderByExpression);
            },
        };
        let partition_by = match collect_refs(&partition_by) {
            Some(v) => v,
            None => {
                return Err(PlanError::PartitionByExpression);
            },
        };
        let mut args = args;
        let frame = match kind {
            WindowFuncKind::RowNumber | WindowFuncKind::Rank | WindowFuncKind::DenseRank => None,
            WindowFuncKind::Lag | WindowFuncKind::Lead => {
                let offset: usize = if args.len() > 1 {
                    let offset_expr = args.remove(1);
                    if !offset_expr.return_type().is_int() {
                        return Err(PlanError::NonIntegerOffset(kind));
                    }
                    match offset_expr {
                        ExprImpl::Literal(l) => match l.value {
                            Some(v) => #[verifier::truncate] (v as usize),
                            None => 1,
                        },
                        _ => {
                            return Err(PlanError::NonConstantOffset);
                        },
                    }
                } else {
                    1
                };
                Some(
                    if kind == WindowFuncKind::Lag {
                        Frame::Rows(FrameBound::Preceding(offset), FrameBound::CurrentRow)
                    } else {
                        Frame::Rows(FrameBound::CurrentRow, FrameBound::Following(offset))
                    },
                )
            },
            _ => frame,
        };
        proof {
            assert(frame_and_args(w) matches Ok((f, a)) && f == frame && a == args@);
        }
        let args = match collect_refs(&args) {
            Some(v) => v,
            None => {
                return Err(PlanError::ArgumentExpression);
            },
        };
        Ok(PlanWindowFunction { kind, return_type, args, partition_by, order_by, frame })
    }

    /// Plans the window functions of `select_exprs` over `input`. Each one at
    /// the top of an expression becomes a column after the input's, numbered
    /// in order, and its expression is replaced by a reference to that column.
    /// Fails on a window function inside another expression, on a ranking
    /// function without `ORDER BY`, on `dense_rank`, and on a call that is not
    /// over plain columns.
    pub fn create(input: PlanRef, select_exprs: Vec<ExprImpl>) -> (r: Result<(LogicalOverAgg, Vec<ExprImpl>), PlanError>)
        requires
            input.schema.view_fields().len() + select_exprs@.len() <= usize::MAX,
        ensures
            match create_spec(input.schema.view_fields().len(), select_exprs@) {
                Err(e) => r == Err::<(LogicalOverAgg, Vec<ExprImpl>), PlanError>(e),
                Ok((calls, exprs)) => r matches Ok((agg, v)) && {
                    &&& v@ == exprs
                    &&& plan_views(agg.core_window_functions()) == calls
                    &&& agg.plan_base().schema.view_fields() == over_window_fields(
                        input.schema.view_fields(),
                        agg.core_window_functions(),
                    )
                },
            },
    {
        let input_len = input.schema.len();
        let ghost all = select_exprs@;
        let n = select_exprs.len();
        let mut rest = select_exprs;
        let mut exprs: Vec<ExprImpl> = Vec::new();
        let mut window_funcs: Vec<WindowFunction> = Vec::new();
        let mut i: usize = 0;
        while i < n
            invariant
                all == select_exprs@,
                n == all.len(),
                input_len == input.schema.view_fields().len(),
                input_len + n <= usize::MAX,
                i <= n,
                rest@ == all.skip(i as int),
                exprs@ == rewritten(all.take(i as int), input_len as nat),
                window_funcs@ == window_calls(all.take(i as int)),
                window_funcs@.len() <= i,
                !nested_window(all.take(i as int)),
            decreases n - i,
        {
            let e = rest.remove(0);
            assert(e == all[i as int]);
            assert(all.take(i + 1).drop_last() =~= all.take(i as int));
            assert(all.take(i + 1).last() == e);
            match e {
                ExprImpl::WindowFunction(w) => {
                    let data_type = w.return_type;
                    let index = input_len + window_funcs.len();
                    exprs.push(ExprImpl::InputRef(InputRef { index, data_type }));
                    window_funcs.push(*w);
                },
                other => {
                    if other.has_window_function() {
                        proof {
                            assert(!(all[i as int] is WindowFunction) && has_window(all[i as int]));
                            assert(nested_window(all));
                        }
                        return Err(PlanError::WindowFunctionInExpression);
                    }
                    exprs.push(other);
                },
            }
            proof {
                assert(rest@ =~= all.skip(i + 1));
                assert forall|q: int| 0 <= q < i + 1 && !(all.take(i + 1)[q] is WindowFunction) implies !#[trigger] has_window(all.take(i + 1)[q]) by {
                    if q < i {
                        assert(all.take(i + 1)[q] == all.take(i as int)[q]);
                    }
                }
            }
            i = i + 1;
        }
        proof {
            assert(all.take(n as int) =~= all);
        }
        let ghost calls = window_funcs@;
        let mut k: usize = 0;
        while k < window_funcs.len()
            invariant
                all == select_exprs@,
                input_len == input.schema.view_fields().len(),
                !nested_window(all),
                calls == window_calls(all),
                exprs@ == rewritten(all, input_len as nat),
                calls == window_funcs@,
                k <= calls.len(),
                rank_error(calls.take(k as int)) is None,
            decreases calls.len() - k,
        {
            let f = &window_funcs[k];
            assert(calls.take(k + 1).drop_last() =~= calls.take(k as int));
            if f.kind.is_rank() {
                if f.order_by.len() == 0 {
                    proof {
                        lemma_rank_error_prefix(calls, k + 1, calls.len() as int);
                        assert(calls.take(calls.len() as int) =~= calls);
                    }
                    return Err(PlanError::RankWithoutOrderBy);
                }
                if f.kind == WindowFuncKind::DenseRank {
                    proof {
                        lemma_rank_error_prefix(calls, k + 1, calls.len() as int);
                        assert(calls.take(calls.len() as int) =~= calls);
                    }
                    return Err(PlanError::DenseRankNotImplemented);
                }
            }
            k = k + 1;
        }
        proof {
            assert(calls.take(calls.len() as int) =~= calls);
        }
        let mut plan_window_funcs: Vec<PlanWindowFunction> = Vec::new();
        proof {
            assert(calls.take(0) =~= Seq::<WindowFunction>::empty());
            assert(plan_views(plan_window_funcs@) =~= Seq::<PlanWindowFunctionView>::empty());
        }
        let mut j: usize = 0;
        let m = window_funcs.len();
        let mut remaining = window_funcs;
        while j < m
            invariant
                all == select_exprs@,
                input_len == input.schema.view_fields().len(),
                !nested_window(all),
                calls == window_calls(all),
                rank_error(calls) is None,
                exprs@ == rewritten(all, input_len as nat),
                m == calls.len(),
                j <= calls.len(),
                remaining@ == calls.skip(j as int),
                convert_calls(calls.take(j as int)) == Ok::<Seq<PlanWindowFunctionView>, PlanError>(
                    plan_views(plan_window_funcs@),
                ),
            decreases calls.len() - j,
        {
            let f = remaining.remove(0);
            assert(f == calls[j as int]);
            assert(calls.take(j + 1).drop_last() =~= calls.take(j as int));
            let ghost before = plan_window_funcs@;
            match Self::convert_window_function(f) {
                Ok(p) => {
                    plan_window_funcs.push(p);
                    assert(plan_window_funcs@.drop_last() =~= before);
                    assert(plan_views(plan_window_funcs@) =~= plan_views(before).push(p@));
                },
                Err(e) => {
                    proof {
                        lemma_convert_error_prefix(calls, j + 1, calls.len() as int);
                        assert(calls.take(calls.len() as int) =~= calls);
                    }
                    return Err(e);
                },
            }
            assert(remaining@ =~= calls.skip(j + 1));
            j = j + 1;
        }
        proof {
            assert(calls.take(calls.len() as int) =~= calls);
        }
        let over_agg = Self::new(plan_window_funcs, input);
        Ok((over_agg, exprs))
    }
}

} // verus!
