use kirei::passes::PassQueues;
use kirei::DrawPass;

#[test]
fn overlay_text_renders_after_normal_text() {
    let mut q: PassQueues<&str> = PassQueues::new();
    assert_eq!(q.current_pass(), DrawPass::Normal);
    q.push("label");
    q.set_pass(DrawPass::Overlay);
    q.push("menu item");
    q.set_pass(DrawPass::Normal);
    q.push("button");
    assert_eq!(q.len(), 3);
    assert_eq!(q.take_in_order(), vec!["label", "button", "menu item"]);
    assert_eq!(q.len(), 0);
    assert_eq!(q.current_pass(), DrawPass::Normal);
}

#[test]
fn each_pass_keeps_its_order() {
    let mut q: PassQueues<u32> = PassQueues::new();
    q.set_pass(DrawPass::Overlay);
    q.push(1);
    q.push(2);
    q.set_pass(DrawPass::Normal);
    q.push(3);
    q.push(4);
    assert_eq!(q.take_in_order(), vec![3, 4, 1, 2]);
}

#[test]
fn clear_drops_queued_work_and_keeps_pass() {
    let mut q: PassQueues<u32> = PassQueues::new();
    q.push(1);
    q.set_pass(DrawPass::Overlay);
    q.push(2);
    q.clear();
    assert_eq!(q.len(), 0);
    assert_eq!(q.current_pass(), DrawPass::Overlay);
    assert!(q.take_in_order().is_empty());
}

use kirei::batches::{BatchList, MAX_BATCH_VERTICES};

fn vertices(batches: &BatchList<u8, u32>) -> Vec<u32> {
    batches
        .as_slice()
        .iter()
        .flat_map(|b| b.vertices.iter().copied())
        .collect()
}

#[test]
fn same_texture_and_scissor_merge_into_one_batch() {
    let mut list: BatchList<u8, u32> = BatchList::new();
    list.push_vertices(0, false, 1, vec![1, 2, 3]);
    list.push_vertices(0, true, 1, vec![4, 5, 6]);
    assert_eq!(list.len(), 1);
    assert_eq!(list.as_slice()[0].vertices, vec![1, 2, 3, 4, 5, 6]);
    assert_eq!(list.last().map(|b| b.scissor), Some(1));
}

#[test]
fn texture_or_scissor_change_starts_a_new_batch() {
    let mut list: BatchList<u8, u32> = BatchList::new();
    list.push_vertices(0, false, 1, vec![1]);
    list.push_vertices(2, true, 1, vec![2]);
    list.push_vertices(2, false, 7, vec![3]);
    assert_eq!(list.len(), 3);
    assert_eq!(list.as_slice()[1].texture_id, 2);
    assert_eq!(list.as_slice()[2].scissor, 7);
    assert_eq!(vertices(&list), vec![1, 2, 3]);
}

#[test]
fn batches_stop_merging_at_the_vertex_limit() {
    let mut list: BatchList<u8, u32> = BatchList::new();
    list.push_vertices(0, false, 0, vec![0; MAX_BATCH_VERTICES - 1]);
    list.push_vertices(0, true, 0, vec![1]);
    assert_eq!(list.len(), 1);
    list.push_vertices(0, true, 0, vec![2]);
    assert_eq!(list.len(), 2);
    assert_eq!(list.as_slice()[0].vertices.len(), MAX_BATCH_VERTICES);
    assert_eq!(list.as_slice()[1].vertices, vec![2]);
}

#[test]
fn take_all_hands_out_batches_and_empties_the_list() {
    let mut list: BatchList<u8, u32> = BatchList::new();
    list.push_vertices(0, false, 0, vec![1, 2]);
    list.push_vertices(1, false, 0, vec![3]);
    let taken = list.take_all();
    assert_eq!(taken.len(), 2);
    assert_eq!(list.len(), 0);
    assert!(list.last().is_none());
    list.push_vertices(1, false, 0, vec![4]);
    list.clear();
    assert_eq!(list.len(), 0);
}

use kirei::textures::{TextureRegistry, WHITE_TEXTURE_ID};

#[test]
fn white_texture_has_id_zero_and_loads_get_fresh_ids() {
    let mut reg: TextureRegistry<&str> = TextureRegistry::new("white");
    assert_eq!(reg.get(WHITE_TEXTURE_ID), Some(&"white"));
    assert_eq!(reg.next_id(), 1);
    let a = reg.register("logo");
    let b = reg.register("icon");
    assert_eq!((a, b), (1, 2));
    assert_eq!(reg.get(1), Some(&"logo"));
    assert_eq!(reg.get(2), Some(&"icon"));
    assert_eq!(reg.get(3), None);
    assert_eq!(reg.next_id(), 3);
}

#[test]
fn vertices_before_gives_buffer_offsets() {
    let mut list: BatchList<u8, u32> = BatchList::new();
    list.push_vertices(0, false, 0, vec![1, 2, 3]);
    list.push_vertices(1, false, 0, vec![4, 5]);
    list.push_vertices(2, false, 0, vec![6]);
    assert_eq!(list.vertices_before(0), Some(0));
    assert_eq!(list.vertices_before(1), Some(3));
    assert_eq!(list.vertices_before(2), Some(5));
    assert_eq!(list.vertices_before(3), Some(6));
}

#[test]
fn failed_loads_use_no_texture_id() {
    let mut reg: TextureRegistry<&str> = TextureRegistry::new("white");
    let first = reg.register_loaded(Ok("logo"));
    assert!(matches!(first, Ok(1)));
    let failed = reg.register_loaded(Err("no such file".to_string()));
    match failed {
        Err(kirei::error::GuiError::TextureLoadFailed(msg)) => assert_eq!(msg, "no such file"),
        _ => panic!("expected a texture load failure"),
    }
    assert_eq!(reg.next_id(), 2);
    let second = reg.register_loaded(Ok("icon"));
    assert!(matches!(second, Ok(2)));
    assert_eq!(reg.get(2), Some(&"icon"));
    assert_eq!(reg.get(3), None);
}
