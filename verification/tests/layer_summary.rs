use incin_core::nn::activation::{ReLU, Softmax, GELU};
use incin_core::nn::module::{
    assign_sequential_names, clean_type_name, format_layer_summary,
    format_layer_summary_with_stats, update_node_name_prefix, LayerNode, ModelStats, NamedLayers,
    Sequential, ShapeInfo, TrainMode,
};

fn node(name: &str, layer_type: &str, children: Vec<LayerNode>) -> LayerNode {
    LayerNode {
        name: name.to_string(),
        layer_type: layer_type.to_string(),
        shape_info: String::new(),
        children,
    }
}

#[test]
fn type_paths_are_cleaned_to_their_simple_name() {
    assert_eq!(clean_type_name("incin::nn::linear::Linear<S, B>"), "Linear");
    assert_eq!(clean_type_name("Tanh"), "Tanh");
    assert_eq!(clean_type_name("a::b::<C::D>"), "");
    assert_eq!(clean_type_name("  spaced::Name  "), "Name");
    assert_eq!(clean_type_name("x:::y"), "y");
    assert_eq!(clean_type_name(""), "");
}

#[test]
fn renaming_a_node_reroots_its_descendants() {
    let mut tree = node(
        "block",
        "Block",
        vec![node("block.fc", "Linear", vec![node("block.fc.act", "ReLU", vec![])]), node("other", "X", vec![])],
    );
    update_node_name_prefix(&mut tree, "layer1");
    assert_eq!(tree.name, "layer1");
    assert_eq!(tree.children[0].name, "layer1.fc");
    assert_eq!(tree.children[0].children[0].name, "layer1.fc.act");
    assert_eq!(tree.children[1].name, "layer1.other");
    assert_eq!(tree.children[0].layer_type, "Linear");
}

#[test]
fn renaming_to_an_empty_name_drops_the_prefix() {
    let mut tree = node("p", "T", vec![node("pq", "U", vec![])]);
    update_node_name_prefix(&mut tree, "");
    assert_eq!(tree.name, "");
    assert_eq!(tree.children[0].name, "q");
}

#[test]
fn sequential_names_count_each_type_separately() {
    let mut nodes = vec![
        node("", "incin::nn::Linear<A>", vec![]),
        node("", "ReLU", vec![]),
        node("", "incin::nn::Linear<B>", vec![]),
        node("", "LayerNode", vec![]),
        node("", "", vec![]),
    ];
    assign_sequential_names(&mut nodes, "");
    let names: Vec<&str> = nodes.iter().map(|n| n.name.as_str()).collect();
    assert_eq!(names, vec!["Linear1", "ReLU1", "Linear2", "3", "4"]);
    assign_sequential_names(&mut nodes, "net");
    assert_eq!(nodes[0].name, "net.Linear1");
    assert_eq!(nodes[3].name, "net.3");
}

#[test]
fn a_sequential_names_its_layers_in_order() {
    let model = Sequential(ReLU, Sequential(GELU, ReLU));
    let layers = model.layer_structure("");
    let names: Vec<&str> = layers.iter().map(|n| n.name.as_str()).collect();
    assert_eq!(names, vec!["ReLU1", "GELU1", "ReLU2"]);
    let softmax = Softmax::new(1).layer_structure("head");
    assert_eq!(softmax[0].name, "head");
    assert_eq!(softmax[0].shape_info, "dim=1");
}

#[test]
fn the_summary_table_pads_each_column() {
    let mut child = node("fc", "incin::Linear<X>", vec![]);
    child.shape_info = "[4, 2]".to_string();
    let nodes = vec![node("net", "Net", vec![child])];
    let rule = format!("{}\n", "=".repeat(80));
    let mut expected = String::new();
    expected.push_str(&rule);
    expected.push_str(&format!("{:<32} {:<28} {:<16}\n", "Layer (Name: Type)", "Shape / Spec", "Details"));
    expected.push_str(&rule);
    expected.push_str(&format!("{:<32} {:<28} {:<16}\n", "net: Net", "-", "-"));
    expected.push_str(&format!("{:<32} {:<28} {:<16}\n", "  fc: Linear", "[4, 2]", "-"));
    expected.push_str(&rule);
    assert_eq!(format_layer_summary(&nodes), expected);
}

#[test]
fn the_stats_footer_follows_the_table() {
    let nodes = vec![node("", "ReLU", vec![])];
    let stats = ModelStats { params: 12, macs: 3400, flops: 6800 };
    let text = format_layer_summary_with_stats(&nodes, stats);
    let expected_tail = format!(
        "Total params: 12    MACs: 3400    FLOPs: 6800\n{}\n",
        "=".repeat(80)
    );
    assert!(text.starts_with(&format_layer_summary(&nodes)));
    assert!(text.ends_with(&expected_tail));
}

#[test]
fn switching_modes_leaves_stateless_layers_as_they_are() {
    let mut model = Sequential(Softmax::new(1), Some(Softmax::new(2)));
    model.eval();
    model.train();
    assert_eq!(model.0.dim, 1);
    assert_eq!(model.1.map(|s| s.dim), Some(2));
    assert_eq!(ReLU.shape_info(), None);
    assert_eq!(Some(Softmax::new(3)).shape_info(), None);
    let absent: Option<ReLU> = None;
    assert!(absent.layer_structure("x").is_empty());
}
