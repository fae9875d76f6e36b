use std::cell::RefCell;
use std::rc::Rc;

use opgraph::{Descriptor, Graph, OpError, OpTag, Operator, Opt, Pass, Shape4};

type Tensor = Rc<Vec<i64>>;
type Log = Rc<RefCell<Vec<String>>>;

struct Step {
    name: &'static str,
    add: i64,
    tag: u64,
    fail_forward: Option<&'static str>,
    fail_backward: Option<&'static str>,
    log: Log,
}

impl Operator<Tensor> for Step {
    fn get_name(&self) -> &str {
        self.name
    }

    fn forward(&mut self, input: Tensor) -> Result<Tensor, OpError> {
        self.log.borrow_mut().push(format!("forward {} {}", self.name, self.tag));
        match self.fail_forward {
            Some(m) => Err(OpError::failed(m)),
            None => Ok(Rc::new(input.iter().map(|v| v + self.add).collect())),
        }
    }

    fn backward(&mut self, delta: Tensor) -> Result<Tensor, OpError> {
        self.log.borrow_mut().push(format!("backward {} {}", self.name, self.tag));
        match self.fail_backward {
            Some(m) => Err(OpError::failed(m)),
            None => Ok(Rc::new(delta.iter().map(|v| v * 2 + self.add).collect())),
        }
    }
}

#[derive(Clone)]
struct Layer {
    names: Vec<&'static str>,
    add: i64,
    out_channels: usize,
    fail_forward: Option<(usize, &'static str)>,
    fail_backward: Option<(usize, &'static str)>,
    log: Log,
    seen: Rc<RefCell<Vec<(Shape4, u64)>>>,
}

impl Descriptor<Step> for Layer {
    fn create(&self, graph: &mut Vec<Step>, shape: &mut Shape4, _opt: Opt, tag: &mut OpTag) -> Result<(), OpError> {
        self.seen.borrow_mut().push((*shape, tag.peek()));
        if shape.c == 0 {
            return Err(OpError::failed("no input channels"));
        }
        for (k, name) in self.names.iter().enumerate() {
            let t = match tag.fresh() {
                Some(t) => t,
                None => return Err(OpError::failed("tags exhausted")),
            };
            graph.push(Step {
                name,
                add: self.add,
                tag: t,
                fail_forward: self.fail_forward.filter(|f| f.0 == k).map(|f| f.1),
                fail_backward: self.fail_backward.filter(|f| f.0 == k).map(|f| f.1),
                log: self.log.clone(),
            });
        }
        shape.c = self.out_channels;
        Ok(())
    }
}

fn layer(names: Vec<&'static str>, add: i64, out_channels: usize, log: &Log, seen: &Rc<RefCell<Vec<(Shape4, u64)>>>) -> Layer {
    Layer { names, add, out_channels, fail_forward: None, fail_backward: None, log: log.clone(), seen: seen.clone() }
}

fn opt() -> Opt {
    Opt { half_precision: false, device: 0 }
}

fn fresh_log() -> (Log, Rc<RefCell<Vec<(Shape4, u64)>>>) {
    (Rc::new(RefCell::new(Vec::new())), Rc::new(RefCell::new(Vec::new())))
}

fn step_error(pass: Pass, index: usize, name: &str, message: &str) -> OpError {
    OpError::step(pass, index, name, OpError::failed(message))
}

#[test]
fn forward_runs_in_construction_order() {
    let (log, seen) = fresh_log();
    let descs = vec![
        layer(vec!["A"], 1, 4, &log, &seen),
        layer(vec!["B", "C"], 10, 5, &log, &seen),
        layer(vec!["D"], 100, 6, &log, &seen),
    ];
    let mut g = Graph::new(descs, Shape4::new(1, 3, 8, 8), opt(), OpTag::new(0)).unwrap();
    let out = g.forward(Rc::new(vec![0, 1])).unwrap();
    assert_eq!(*out, vec![121, 122]);
    assert_eq!(
        *log.borrow(),
        vec!["forward A 0", "forward B 1", "forward C 2", "forward D 3"]
    );
}

#[test]
fn backward_runs_in_reverse_order() {
    let (log, seen) = fresh_log();
    let descs = vec![layer(vec!["A"], 1, 4, &log, &seen), layer(vec!["B", "C"], 0, 5, &log, &seen)];
    let mut g = Graph::new(descs, Shape4::new(1, 3, 8, 8), opt(), OpTag::new(7)).unwrap();
    let out = g.backward(Rc::new(vec![1])).unwrap();
    // C: 1*2+0 = 2, B: 2*2+0 = 4, A: 4*2+1 = 9
    assert_eq!(*out, vec![9]);
    assert_eq!(*log.borrow(), vec!["backward C 9", "backward B 8", "backward A 7"]);
}

#[test]
fn empty_graph_is_identity() {
    let descs: Vec<Layer> = Vec::new();
    let mut g: Graph<Step> = Graph::new(descs, Shape4::new(1, 1, 1, 1), opt(), OpTag::new(0)).unwrap();
    assert_eq!(*g.forward(Rc::new(vec![5])).unwrap(), vec![5]);
    assert_eq!(*g.backward(Rc::new(vec![6])).unwrap(), vec![6]);
    assert_eq!(g.get_name(), "Graph");
}

#[test]
fn construction_threads_shape_and_tags() {
    let (log, seen) = fresh_log();
    let descs = vec![
        layer(vec!["A", "B", "C"], 0, 16, &log, &seen),
        layer(vec![], 0, 32, &log, &seen),
        layer(vec!["D"], 0, 64, &log, &seen),
    ];
    let g = Graph::new(descs, Shape4::new(2, 3, 28, 28), opt(), OpTag::new(5));
    assert!(g.is_ok());
    let seen = seen.borrow();
    assert_eq!(seen.len(), 3);
    assert_eq!(seen[0], (Shape4::new(2, 3, 28, 28), 5));
    assert_eq!(seen[1], (Shape4::new(2, 16, 28, 28), 8));
    assert_eq!(seen[2], (Shape4::new(2, 32, 28, 28), 8));
}

#[test]
fn tags_strictly_increase() {
    let (log, seen) = fresh_log();
    let descs = vec![
        layer(vec!["A", "B"], 0, 4, &log, &seen),
        layer(vec!["C", "D", "E"], 0, 4, &log, &seen),
    ];
    let mut g = Graph::new(descs, Shape4::new(1, 3, 1, 1), opt(), OpTag::new(40)).unwrap();
    g.forward(Rc::new(vec![])).unwrap();
    let tags: Vec<u64> = log.borrow().iter().map(|l| l.rsplit(' ').next().unwrap().parse().unwrap()).collect();
    assert_eq!(tags, vec![40, 41, 42, 43, 44]);
}

#[test]
fn construction_error_is_returned_unwrapped() {
    let (log, seen) = fresh_log();
    let descs = vec![
        layer(vec!["A"], 0, 0, &log, &seen),
        layer(vec!["B"], 0, 4, &log, &seen),
        layer(vec!["C"], 0, 4, &log, &seen),
    ];
    let g = Graph::new(descs, Shape4::new(1, 3, 1, 1), opt(), OpTag::new(0));
    assert_eq!(g.err(), Some(OpError::failed("no input channels")));
    // the third descriptor is never asked
    assert_eq!(seen.borrow().len(), 2);
}

#[test]
fn tag_counter_exhaustion() {
    let mut t = OpTag::new(u64::MAX - 1);
    assert_eq!(t.fresh(), Some(u64::MAX - 1));
    assert_eq!(t.peek(), u64::MAX);
    assert_eq!(t.fresh(), None);
    assert_eq!(t.peek(), u64::MAX);
}

#[test]
fn forward_error_names_step_and_stops() {
    let (log, seen) = fresh_log();
    let mut relu = layer(vec!["ReLU"], 0, 4, &log, &seen);
    relu.fail_forward = Some((0, "negative input"));
    let descs = vec![layer(vec!["Linear"], 1, 4, &log, &seen), relu, layer(vec!["Linear"], 1, 4, &log, &seen)];
    let mut g = Graph::new(descs, Shape4::new(1, 4, 1, 1), opt(), OpTag::new(0)).unwrap();
    let e = g.forward(Rc::new(vec![1, 2])).unwrap_err();
    assert_eq!(e, step_error(Pass::Forward, 1, "ReLU", "negative input"));
    match e {
        OpError::Step { pass, index, name, cause } => {
            assert_eq!(pass, Pass::Forward);
            assert_eq!(index, 1);
            assert_eq!(name, "ReLU");
            assert_eq!(*cause, OpError::Failed { message: String::from("negative input") });
        }
        OpError::Failed { .. } => panic!("expected a step error"),
    }
    assert_eq!(*log.borrow(), vec!["forward Linear 0", "forward ReLU 1"]);
}

#[test]
fn backward_error_reports_construction_index() {
    let (log, seen) = fresh_log();
    let mut first = layer(vec!["Linear"], 1, 4, &log, &seen);
    first.fail_backward = Some((0, "bad gradient"));
    let descs = vec![first, layer(vec!["ReLU"], 0, 4, &log, &seen), layer(vec!["Linear"], 1, 4, &log, &seen)];
    let mut g = Graph::new(descs, Shape4::new(1, 4, 1, 1), opt(), OpTag::new(0)).unwrap();
    let e = g.backward(Rc::new(vec![3])).unwrap_err();
    assert_eq!(e, step_error(Pass::Backward, 0, "Linear", "bad gradient"));
    assert_eq!(*log.borrow(), vec!["backward Linear 2", "backward ReLU 1", "backward Linear 0"]);
}

#[test]
fn backward_error_in_middle_leaves_earlier_untouched() {
    let (log, seen) = fresh_log();
    let mut mid = layer(vec!["B", "C"], 0, 4, &log, &seen);
    mid.fail_backward = Some((1, "nan"));
    let descs = vec![layer(vec!["A"], 0, 4, &log, &seen), mid];
    let mut g = Graph::new(descs, Shape4::new(1, 4, 1, 1), opt(), OpTag::new(0)).unwrap();
    let e = g.backward(Rc::new(vec![3])).unwrap_err();
    assert_eq!(e, step_error(Pass::Backward, 2, "C", "nan"));
    assert_eq!(*log.borrow(), vec!["backward C 2"]);
}

#[test]
fn linear_relu_linear_scenario() {
    let (log, seen) = fresh_log();
    let mut relu = layer(vec!["ReLU"], 0, 4, &log, &seen);
    relu.fail_forward = Some((0, "negative input"));
    let mut first = layer(vec!["Linear"], 1, 4, &log, &seen);
    first.fail_backward = Some((0, "singular weights"));
    let descs = vec![first, relu, layer(vec!["Linear"], 1, 4, &log, &seen)];
    let mut g = Graph::new(descs, Shape4::new(1, 4, 1, 1), opt(), OpTag::new(0)).unwrap();

    let fe = g.forward(Rc::new(vec![-1])).unwrap_err();
    assert_eq!(fe, step_error(Pass::Forward, 1, "ReLU", "negative input"));

    log.borrow_mut().clear();
    let be = g.backward(Rc::new(vec![1])).unwrap_err();
    assert_eq!(be, step_error(Pass::Backward, 0, "Linear", "singular weights"));
    assert_eq!(*log.borrow(), vec!["backward Linear 2", "backward ReLU 1", "backward Linear 0"]);
}

struct Sub {
    layers: Vec<Layer>,
}

impl Descriptor<Graph<Step>> for Sub {
    fn create(
        &self,
        graph: &mut Vec<Graph<Step>>,
        shape: &mut Shape4,
        opt: Opt,
        tag: &mut OpTag,
    ) -> Result<(), OpError> {
        let g = Graph::new(self.layers.clone(), *shape, opt, *tag)?;
        graph.push(g);
        Ok(())
    }
}

#[test]
fn nested_graph_matches_flattened() {
    let (log, seen) = fresh_log();
    let a = vec![layer(vec!["A"], 1, 4, &log, &seen), layer(vec!["B"], 2, 4, &log, &seen)];
    let b = vec![layer(vec!["C", "D"], 3, 4, &log, &seen)];
    let shape = Shape4::new(1, 4, 1, 1);
    let mut parent: Graph<Graph<Step>> =
        Graph::new(vec![Sub { layers: a.clone() }, Sub { layers: b.clone() }], shape, opt(), OpTag::new(0)).unwrap();
    let mut all = a.clone();
    all.extend(b.clone());
    let mut flat = Graph::new(all, shape, opt(), OpTag::new(0)).unwrap();

    let x: Tensor = Rc::new(vec![1, -4, 9]);
    assert_eq!(*parent.forward(x.clone()).unwrap(), *flat.forward(x.clone()).unwrap());
    assert_eq!(*parent.backward(x.clone()).unwrap(), *flat.backward(x).unwrap());
    assert_eq!(*parent.forward(Rc::new(vec![0])).unwrap(), vec![9]);
}

#[test]
fn nested_graph_error_is_wrapped_twice() {
    let (log, seen) = fresh_log();
    let mut bad = layer(vec!["C"], 0, 4, &log, &seen);
    bad.fail_forward = Some((0, "overflow"));
    let a = vec![layer(vec!["A"], 1, 4, &log, &seen)];
    let b = vec![layer(vec!["B"], 1, 4, &log, &seen), bad];
    let shape = Shape4::new(1, 4, 1, 1);
    let mut parent: Graph<Graph<Step>> =
        Graph::new(vec![Sub { layers: a }, Sub { layers: b }], shape, opt(), OpTag::new(0)).unwrap();
    let e = parent.forward(Rc::new(vec![0])).unwrap_err();
    let inner = step_error(Pass::Forward, 1, "C", "overflow");
    assert_eq!(e, OpError::step(Pass::Forward, 1, "Graph", inner));
}
