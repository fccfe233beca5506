use xcq::program::{take_first_root_attr, take_first_xcq_attr, AttrModel};
use xcq::pvq_program::take_first_program_attr;
use xcq::syntax::{ArgsModel, PathModel, SegmentModel};

fn model(names: &[&str]) -> AttrModel {
    AttrModel {
        path: PathModel {
            leading_colon: false,
            segments: names.iter().map(|n| SegmentModel { ident: n.to_string(), args: ArgsModel::Absent }).collect(),
        },
        args: None,
    }
}

/// `#[inline] #[program::entrypoint] #[program::x] fn f() {}`: the first
/// `program` attribute is taken, the others keep their order.
#[test]
fn first_program_attr_is_taken() {
    let models = vec![model(&["inline"]), model(&["program", "entrypoint"]), model(&["program", "x"])];
    let mut attrs = vec!["inline", "program::entrypoint", "program::x"];
    assert_eq!(take_first_program_attr(&mut attrs, &models), Some("program::entrypoint"));
    assert_eq!(attrs, vec!["inline", "program::x"]);
}

#[test]
fn first_xcq_attr_is_taken() {
    let models = vec![model(&["xcq", "call_def"]), model(&["doc"]), model(&["xcq", "entrypoint"])];
    let mut attrs = vec![0, 1, 2];
    assert_eq!(take_first_xcq_attr(&mut attrs, &models), Some(0));
    assert_eq!(attrs, vec![1, 2]);
}

#[test]
fn attrs_without_the_root_are_left_alone() {
    let models = vec![model(&["inline"]), model(&["doc"])];
    let mut attrs = vec!["inline", "doc"];
    assert_eq!(take_first_root_attr(&mut attrs, &models, "xcq"), None);
    assert_eq!(attrs, vec!["inline", "doc"]);
    let mut none: Vec<&str> = vec![];
    assert_eq!(take_first_program_attr(&mut none, &vec![]), None);
}
