use std::rc::Rc;

use stream_core::expr::{
    ExprImpl, FunctionCall, InputRef, Literal, OrderByExpr, WindowFunction,
};
use stream_core::nginx::{NginxConfig, NginxService};
use stream_core::plan::{
    window_func_name, ColumnOrder, DataType, Distribution, Field, Frame, FrameBound,
    LogicalOverAgg, LogicalUnion, OrderType, PlanError, PlanRef, PlanWindowFunction, Schema,
    Source, SourceCatalog, StreamSource, WatermarkDesc,
};
use stream_core::split::CdcSplit;
use stream_core::window::{AggKind, WindowFuncKind};

fn schema(names: &[&str]) -> Schema {
    Schema {
        fields: names
            .iter()
            .map(|n| Field {
                data_type: DataType::Int32,
                name: n.to_string(),
            })
            .collect(),
    }
}

#[test]
fn union_takes_first_input_schema() {
    let v = || PlanRef::leaf(schema(&["v1", "v2", "v3"]));
    let w = || PlanRef::leaf(schema(&["w1", "w2", "w3"]));
    let union = LogicalUnion::new(false, vec![v(), w()]);
    assert!(!union.all());
    assert_eq!(union.source_col(), None);
    assert_eq!(union.inputs().len(), 2);
    assert_eq!(union.inputs()[1].schema, schema(&["w1", "w2", "w3"]));
    assert_eq!(union.base.schema, schema(&["v1", "v2", "v3"]));
    let union = LogicalUnion::new_with_source_col(true, vec![w()], Some(3));
    assert!(union.all());
    assert_eq!(union.source_col(), Some(3));
    let plan = LogicalUnion::create(true, vec![w(), v()]);
    assert_eq!(plan.schema, schema(&["w1", "w2", "w3"]));
    let u = plan.as_logical_union().unwrap();
    assert!(u.all());
    assert_eq!(u.source_col(), None);
    assert_eq!(u.inputs().len(), 2);
    assert_eq!(u.inputs()[0].schema, schema(&["w1", "w2", "w3"]));
    assert_eq!(u.inputs()[1].schema, schema(&["v1", "v2", "v3"]));
    assert!(u.inputs()[0].as_logical_union().is_none());
}

#[test]
fn over_agg_appends_window_columns() {
    let input = PlanRef::leaf(schema(&["v1"]));
    let call = |kind| PlanWindowFunction {
        kind,
        return_type: DataType::Int64,
        args: vec![],
        partition_by: vec![InputRef {
            index: 0,
            data_type: DataType::Int32,
        }],
        order_by: vec![],
        frame: None,
    };
    let agg = LogicalOverAgg::new(
        vec![call(WindowFuncKind::RowNumber), call(WindowFuncKind::Aggregate(AggKind::Sum))],
        input,
    );
    assert_eq!(agg.window_functions().len(), 2);
    assert_eq!(agg.window_functions()[1].kind, WindowFuncKind::Aggregate(AggKind::Sum));
    let names: Vec<&str> = agg.base.schema.fields.iter().map(|f| f.name.as_str()).collect();
    assert_eq!(names, vec!["v1", "row_number", "sum"]);
    assert_eq!(agg.base.schema.fields[2].data_type, DataType::Int64);
    assert_eq!(window_func_name(WindowFuncKind::DenseRank), "dense_rank");
}

#[test]
fn window_kind_is_rank() {
    assert!(WindowFuncKind::RowNumber.is_rank());
    assert!(WindowFuncKind::Rank.is_rank());
    assert!(WindowFuncKind::DenseRank.is_rank());
    assert!(!WindowFuncKind::Lag.is_rank());
    assert!(!WindowFuncKind::Lead.is_rank());
    assert!(!WindowFuncKind::Aggregate(AggKind::Count).is_rank());
}

#[test]
fn stream_source_marks_watermark_columns() {
    let catalog = Rc::new(SourceCatalog {
        id: 3,
        name: "s".to_string(),
        append_only: false,
        watermark_descs: vec![WatermarkDesc { watermark_idx: 2 }, WatermarkDesc { watermark_idx: 0 }],
    });
    let source = StreamSource::new(Source {
        catalog: Some(catalog.clone()),
        schema: schema(&["a", "b", "c"]),
    });
    let marks = &source.base.watermark_columns;
    assert_eq!(marks.len(), 3);
    assert!(marks.contains(0) && !marks.contains(1) && marks.contains(2));
    assert!(!source.base.append_only);
    assert_eq!(source.base.distribution, Distribution::SomeShard);
    assert_eq!(source.column_names(), vec!["a", "b", "c"]);
    assert!(Rc::ptr_eq(&source.source_catalog().unwrap(), &catalog));
}

#[test]
fn stream_source_without_catalog() {
    let source = StreamSource::new(Source {
        catalog: None,
        schema: schema(&["x"]),
    });
    assert!(source.base.append_only);
    assert_eq!(source.base.watermark_columns.len(), 1);
    assert_eq!(source.base.watermark_columns.count_ones(..), 0);
    assert!(source.source_catalog().is_none());
}

#[test]
fn cdc_split_offsets() {
    let split = CdcSplit::new(42, "binlog.000001:4".to_string());
    assert_eq!(split.split_id, 42);
    assert_eq!(split.server_addr, None);
    assert_eq!(split.start_offset.as_deref(), Some("binlog.000001:4"));
    assert_eq!(split.id(), "42");
    let with_addr = CdcSplit {
        server_addr: Some("10.0.0.1:3306".to_string()),
        ..split
    };
    let moved = with_addr.copy_with_offset("binlog.000002:8".to_string());
    assert_eq!(moved.split_id, 42);
    assert_eq!(moved.server_addr.as_deref(), Some("10.0.0.1:3306"));
    assert_eq!(moved.start_offset.as_deref(), Some("binlog.000002:8"));
    assert_eq!(CdcSplit::new(0, String::new()).id(), "0");
    assert_eq!(CdcSplit::new(u32::MAX, String::new()).id(), "4294967295");
}

#[test]
fn nginx_service_arguments() {
    let service = NginxService::new(NginxConfig {
        id: "nginx-1".to_string(),
        address: "127.0.0.1".to_string(),
        port: 8080,
    })
    .unwrap();
    assert_eq!(service.id(), "nginx-1");
    assert_eq!(
        service.command_args(),
        vec!["--bind", "127.0.0.1", "--port", "8080", "--shutdown-on-sigint", "nosave"]
    );
}

fn col(index: usize) -> ExprImpl {
    ExprImpl::InputRef(InputRef {
        index,
        data_type: DataType::Int32,
    })
}

fn lit(value: Option<i64>, data_type: DataType) -> ExprImpl {
    ExprImpl::Literal(Literal { value, data_type })
}

fn window(kind: WindowFuncKind, args: Vec<ExprImpl>, order_by: Vec<ExprImpl>) -> ExprImpl {
    ExprImpl::WindowFunction(Box::new(WindowFunction {
        kind,
        args,
        return_type: DataType::Int64,
        partition_by: vec![col(1)],
        order_by: order_by
            .into_iter()
            .map(|expr| OrderByExpr {
                expr,
                order_type: OrderType::Ascending,
            })
            .collect(),
        frame: None,
    }))
}

fn create(exprs: Vec<ExprImpl>) -> Result<(LogicalOverAgg, Vec<ExprImpl>), PlanError> {
    LogicalOverAgg::create(PlanRef::leaf(schema(&["a", "b"])), exprs)
}

fn is_col(e: &ExprImpl, index: usize, data_type: DataType) -> bool {
    matches!(e, ExprImpl::InputRef(r) if r.index == index && r.data_type == data_type)
}

#[test]
fn create_replaces_window_calls_by_columns() {
    let (agg, exprs) = create(vec![
        col(0),
        window(WindowFuncKind::RowNumber, vec![], vec![col(0)]),
        window(WindowFuncKind::Lag, vec![col(0), lit(Some(2), DataType::Int32)], vec![col(1)]),
        window(WindowFuncKind::Lead, vec![col(1)], vec![col(0)]),
    ])
    .unwrap();
    assert_eq!(exprs.len(), 4);
    assert!(is_col(&exprs[0], 0, DataType::Int32));
    assert!(is_col(&exprs[1], 2, DataType::Int64));
    assert!(is_col(&exprs[2], 3, DataType::Int64));
    assert!(is_col(&exprs[3], 4, DataType::Int64));
    let calls = agg.window_functions();
    assert_eq!(calls.len(), 3);
    assert_eq!(calls[0].frame, None);
    assert_eq!(
        calls[0].order_by,
        vec![ColumnOrder {
            column_index: 0,
            order_type: OrderType::Ascending
        }]
    );
    assert_eq!(calls[0].partition_by[0].index, 1);
    assert_eq!(
        calls[1].frame,
        Some(Frame::Rows(FrameBound::Preceding(2), FrameBound::CurrentRow))
    );
    assert_eq!(calls[1].args.len(), 1);
    assert_eq!(calls[1].args[0].index, 0);
    assert_eq!(
        calls[2].frame,
        Some(Frame::Rows(FrameBound::CurrentRow, FrameBound::Following(1)))
    );
    let names: Vec<&str> = agg.base.schema.fields.iter().map(|f| f.name.as_str()).collect();
    assert_eq!(names, vec!["a", "b", "row_number", "lag", "lead"]);
}

#[test]
fn create_keeps_aggregate_frame_and_null_offset() {
    let mut w = WindowFunction {
        kind: WindowFuncKind::Aggregate(AggKind::Sum),
        args: vec![col(1)],
        return_type: DataType::Int64,
        partition_by: vec![],
        order_by: vec![],
        frame: Some(Frame::Rows(FrameBound::UnboundedPreceding, FrameBound::CurrentRow)),
    };
    let first = WindowFunction {
        kind: w.kind,
        args: vec![col(1)],
        return_type: w.return_type,
        partition_by: vec![],
        order_by: vec![],
        frame: w.frame,
    };
    let (agg, _) = create(vec![ExprImpl::WindowFunction(Box::new(first))]).unwrap();
    assert_eq!(
        agg.window_functions()[0].frame,
        Some(Frame::Rows(FrameBound::UnboundedPreceding, FrameBound::CurrentRow))
    );
    w.kind = WindowFuncKind::Lead;
    w.args = vec![col(0), lit(None, DataType::Int64)];
    let (agg, _) = create(vec![ExprImpl::WindowFunction(Box::new(w))]).unwrap();
    assert_eq!(
        agg.window_functions()[0].frame,
        Some(Frame::Rows(FrameBound::CurrentRow, FrameBound::Following(1)))
    );
}

#[test]
fn create_errors() {
    let nested = ExprImpl::FunctionCall(Box::new(FunctionCall {
        inputs: vec![col(0), window(WindowFuncKind::Rank, vec![], vec![col(0)])],
        return_type: DataType::Int64,
    }));
    assert_eq!(create(vec![nested]).unwrap_err(), PlanError::WindowFunctionInExpression);
    assert_eq!(
        create(vec![window(WindowFuncKind::Rank, vec![], vec![])]).unwrap_err(),
        PlanError::RankWithoutOrderBy
    );
    assert_eq!(
        create(vec![window(WindowFuncKind::DenseRank, vec![], vec![col(0)])]).unwrap_err(),
        PlanError::DenseRankNotImplemented
    );
    assert_eq!(
        create(vec![window(WindowFuncKind::RowNumber, vec![], vec![lit(Some(1), DataType::Int32)])])
            .unwrap_err(),
        PlanError::OrderByExpression
    );
    let mut w = window(WindowFuncKind::RowNumber, vec![], vec![col(0)]);
    if let ExprImpl::WindowFunction(f) = &mut w {
        f.partition_by = vec![lit(Some(1), DataType::Int32)];
    }
    assert_eq!(create(vec![w]).unwrap_err(), PlanError::PartitionByExpression);
    assert_eq!(
        create(vec![window(WindowFuncKind::Lag, vec![col(0), lit(Some(1), DataType::Varchar)], vec![col(0)])])
            .unwrap_err(),
        PlanError::NonIntegerOffset(WindowFuncKind::Lag)
    );
    assert_eq!(
        create(vec![window(WindowFuncKind::Lead, vec![col(0), col(1)], vec![col(0)])]).unwrap_err(),
        PlanError::NonConstantOffset
    );
    assert_eq!(
        create(vec![window(WindowFuncKind::Lag, vec![lit(Some(1), DataType::Int32)], vec![col(0)])])
            .unwrap_err(),
        PlanError::ArgumentExpression
    );
}
