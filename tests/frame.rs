use gpu_allocator::vulkan::Allocation;
use vkcore::global_descriptors::{GlobalDescriptorSet, ImageInfo, LAYOUT_SHADER_READ_ONLY_OPTIMAL};
use vkcore::layout::DescriptorKind;
use vkcore::passes::{same_name, SequentialNode, SequentialPassSystem};
use vkcore::present::{
    chunk_ranges, chunks_for_slot, secondary_buffers_to_execute, slots_in_use,
    touched_slots, PresentNode, DRAW_CHUNK_SIZE,
};
use vkcore::resource::{Extent3D, Image};
use vkcore::texture::{extension_to_vk_format, ImageTextureLoader};

fn texture(view: u64) -> Image {
    let mut img = Image::new(view + 1000, Allocation::default(), 43, Extent3D { width: 1, height: 1, depth: 1 });
    img.create_view(|| view);
    img
}

#[test]
fn texture_slots_follow_key_order() {
    let mut g = GlobalDescriptorSet::new();
    assert!(g.insert_texture(20, texture(2)).is_none());
    assert!(g.insert_texture(10, texture(1)).is_none());
    assert_eq!(g.len(), 2);
    assert_eq!(g.get_texture_index(10), Some(0));
    assert_eq!(g.get_texture_index(20), Some(1));
    assert_eq!(g.get_texture_index(15), None);
    assert!(g.insert_texture(15, texture(3)).is_none());
    assert_eq!(g.get_texture_index(10), Some(0));
    assert_eq!(g.get_texture_index(15), Some(1));
    assert_eq!(g.get_texture_index(20), Some(2));
}

#[test]
fn residency_change_requests_one_update() {
    let mut g = GlobalDescriptorSet::new();
    assert!(!g.needs_update());
    g.insert_texture(1, texture(1));
    assert!(g.needs_update());
    g.update_descriptor_set(5, 6);
    assert!(!g.needs_update());
}

#[test]
fn reinserting_a_key_replaces_it() {
    let mut g = GlobalDescriptorSet::new();
    g.insert_texture(5, texture(1));
    let old = g.insert_texture(5, texture(2)).unwrap();
    assert_eq!(old.view, Some(1));
    assert_eq!(g.len(), 1);
}

#[test]
fn descriptor_writes_cover_every_slot() {
    let mut g = GlobalDescriptorSet::new();
    g.insert_texture(30, texture(3));
    g.insert_texture(10, texture(1));
    let writes = g.update_descriptor_set(77, 9);
    assert_eq!(writes.len(), 2);
    for (i, w) in writes.iter().enumerate() {
        assert_eq!(w.dst_set, 77);
        assert_eq!(w.dst_binding, 0);
        assert_eq!(w.dst_array_element, i as u32);
        assert_eq!(w.kind, DescriptorKind::CombinedImageSampler);
        assert_eq!(w.info.sampler, 9);
        assert_eq!(w.info.layout, LAYOUT_SHADER_READ_ONLY_OPTIMAL);
    }
    assert_eq!(writes[0].info.view, 1);
    assert_eq!(writes[1].info.view, 3);
    // cached infos are reused on the next flush
    let again = g.update_descriptor_set(78, 4);
    assert_eq!(again[0].info, ImageInfo { view: 1, sampler: 9, layout: LAYOUT_SHADER_READ_ONLY_OPTIMAL });
    assert_eq!(again[0].dst_set, 78);
}

#[test]
fn draw_list_of_237_makes_five_chunks() {
    let chunks = chunk_ranges(237, DRAW_CHUNK_SIZE);
    assert_eq!(chunks, vec![(0, 50), (50, 100), (100, 150), (150, 200), (200, 237)]);
    assert_eq!(slots_in_use(chunks.len(), 8), 5);
    for slot in 0..5 {
        assert_eq!(chunks_for_slot(chunks.len(), 8, slot), vec![slot]);
    }
    let completions = vec![3, 0, 4, 1, 2];
    let touched = touched_slots(&completions);
    assert_eq!(touched.len(), 5);
    let buffers = vec![100, 101, 102, 103, 104, 105, 106, 107];
    assert_eq!(secondary_buffers_to_execute(&buffers, &touched), Some(vec![103, 100, 104, 101, 102]));
}

#[test]
fn chunk_edges() {
    assert!(chunk_ranges(0, 50).is_empty());
    assert_eq!(chunk_ranges(50, 50), vec![(0, 50)]);
    assert_eq!(chunk_ranges(51, 50), vec![(0, 50), (50, 51)]);
}

#[test]
fn touched_slots_drop_repeats() {
    assert_eq!(touched_slots(&vec![2, 2, 0, 2, 1, 0]), vec![2, 0, 1]);
    assert!(touched_slots(&vec![]).is_empty());
    assert_eq!(secondary_buffers_to_execute(&vec![5, 6], &vec![0, 2]), None);
}

struct Recorder {
    name: &'static str,
    fail: bool,
}

impl SequentialNode<Vec<String>> for Recorder {
    fn update(&mut self, world: &mut Vec<String>) {
        world.push(format!("update {}", self.name));
    }

    fn run(&self, world: &mut Vec<String>) -> Result<(), String> {
        world.push(format!("run {}", self.name));
        if self.fail {
            Err(self.name.to_string())
        } else {
            Ok(())
        }
    }
}

#[test]
fn passes_run_in_insertion_order() {
    let mut graph = SequentialPassSystem::new();
    graph.add_pass("present".to_string(), Recorder { name: "present", fail: false });
    graph.add_pass("ui".to_string(), Recorder { name: "ui", fail: false });
    let mut log = Vec::new();
    graph.update(&mut log);
    assert_eq!(graph.run(&mut log), Ok(()));
    assert_eq!(log, vec!["update present", "update ui", "run present", "run ui"]);
    assert_eq!(graph.get_pass("ui").map(|p| p.node.name), Some("ui"));
    assert!(graph.get_pass("missing").is_none());
    graph.remove_pass("present");
    assert_eq!(graph.passes.len(), 1);
    assert_eq!(graph.passes[0].id, "ui");
}

#[test]
fn run_stops_at_first_failure() {
    let mut graph = SequentialPassSystem::new();
    graph.add_pass("a".to_string(), Recorder { name: "a", fail: true });
    graph.add_pass("b".to_string(), Recorder { name: "b", fail: false });
    let mut log = Vec::new();
    let failure = graph.run(&mut log).unwrap_err();
    assert_eq!(failure.index, 0);
    assert_eq!(failure.message, "a");
    assert_eq!(log, vec!["run a"]);
}

#[test]
fn names_compare_by_characters() {
    assert!(same_name("abc", "abc"));
    assert!(!same_name("abc", "abd"));
    assert!(!same_name("abc", "ab"));
}

#[test]
fn extensions_select_formats() {
    assert_eq!(extension_to_vk_format("png"), Some(43));
    assert_eq!(extension_to_vk_format("jpg"), Some(37));
    assert_eq!(extension_to_vk_format("jpeg"), Some(37));
    assert_eq!(extension_to_vk_format("bmp"), None);
    assert_eq!(ImageTextureLoader.extensions(), vec!["png", "jpg", "jpeg"]);
}

#[test]
fn present_node_rewrites_set_only_after_residency_change() {
    let node = PresentNode::new(vec![40, 41], 7);
    let mut g = GlobalDescriptorSet::new();
    assert!(node.update(&mut g, 3).is_empty());
    g.insert_texture(8, texture(2));
    g.insert_texture(4, texture(1));
    let writes = node.update(&mut g, 3);
    assert_eq!(writes.len(), 2);
    assert!(writes.iter().all(|w| w.dst_set == 40));
    assert_eq!(writes[0].info.view, 1);
    assert_eq!(writes[1].dst_array_element, 1);
    assert!(node.update(&mut g, 3).is_empty());
}

#[test]
fn slots_share_chunks_in_turn() {
    assert_eq!(slots_in_use(5, 2), 2);
    assert_eq!(chunks_for_slot(5, 2, 0), vec![0, 2, 4]);
    assert_eq!(chunks_for_slot(5, 2, 1), vec![1, 3]);
    assert!(chunks_for_slot(2, 4, 3).is_empty());
    assert_eq!(slots_in_use(0, 4), 0);
}

#[test]
fn empty_pass_list_runs() {
    let graph: SequentialPassSystem<Recorder> = SequentialPassSystem::new();
    let mut log = Vec::new();
    assert_eq!(graph.run(&mut log), Ok(()));
    assert!(log.is_empty());
}
