use audiolink::node::{
    bind_group_images, AudiolinkDataTexture, AudiolinkNode, AudiolinkState, Dispatch, ImageSlot,
    Kernel, KernelStatus, AUDIOLINK_HEIGHT, AUDIOLINK_WIDTH, WORKGROUP_SIZE,
};

fn ready_after(ticks: usize, tick: usize) -> KernelStatus {
    if tick + 1 >= ticks {
        KernelStatus::Compiled
    } else {
        KernelStatus::Creating
    }
}

#[test]
fn node_starts_loading() {
    let node = AudiolinkNode::default();
    assert_eq!(node.current_state(), AudiolinkState::Loading);
    assert_eq!(node.run(), None);
    assert_eq!(node.published(), ImageSlot::A);
}

#[test]
fn loading_waits_for_the_init_kernel() {
    let mut node = AudiolinkNode::default();
    for status in [KernelStatus::Queued, KernelStatus::Creating, KernelStatus::NotLoaded] {
        node.update(status, KernelStatus::Compiled);
        assert_eq!(node.current_state(), AudiolinkState::Loading);
    }
    node.update(KernelStatus::Compiled, KernelStatus::Queued);
    assert_eq!(node.current_state(), AudiolinkState::Init);
}

#[test]
fn init_waits_for_the_update_kernel() {
    let mut node = AudiolinkNode::default();
    node.update(KernelStatus::Compiled, KernelStatus::Queued);
    for status in [
        KernelStatus::Queued,
        KernelStatus::Creating,
        KernelStatus::NotLoaded,
        KernelStatus::Failed,
    ] {
        node.update(KernelStatus::Failed, status);
        assert_eq!(node.current_state(), AudiolinkState::Init);
    }
    node.update(KernelStatus::Compiled, KernelStatus::Compiled);
    assert_eq!(node.current_state(), AudiolinkState::Update(1));
}

#[test]
fn only_a_failed_init_kernel_while_loading_is_fatal() {
    let mut node = AudiolinkNode::default();
    assert!(node.is_fatal(KernelStatus::Failed));
    assert!(!node.is_fatal(KernelStatus::NotLoaded));
    assert!(!node.is_fatal(KernelStatus::Queued));
    assert!(!node.is_fatal(KernelStatus::Creating));
    assert!(!node.is_fatal(KernelStatus::Compiled));
    node.update(KernelStatus::Compiled, KernelStatus::Queued);
    assert!(!node.is_fatal(KernelStatus::Failed));
    node.update(KernelStatus::Compiled, KernelStatus::Compiled);
    assert!(!node.is_fatal(KernelStatus::Failed));
}

#[test]
fn node_reaches_update_one_tick_after_both_kernels_compiled() {
    for k in 1..6usize {
        let mut node = AudiolinkNode::default();
        for tick in 0..k + 1 {
            node.update(ready_after(k, tick), ready_after(k, tick));
        }
        assert_eq!(node.current_state(), AudiolinkState::Update(1));
        let mut role = 1;
        for tick in k + 1..k + 20 {
            node.update(ready_after(k, tick), ready_after(k, tick));
            role = 1 - role;
            assert_eq!(node.current_state(), AudiolinkState::Update(role));
        }
    }
}

#[test]
fn update_ignores_kernel_reports() {
    let mut node = AudiolinkNode::default();
    node.update(KernelStatus::Compiled, KernelStatus::Compiled);
    node.update(KernelStatus::Compiled, KernelStatus::Compiled);
    node.update(KernelStatus::Failed, KernelStatus::Failed);
    assert_eq!(node.current_state(), AudiolinkState::Update(0));
    node.update(KernelStatus::Queued, KernelStatus::NotLoaded);
    assert_eq!(node.current_state(), AudiolinkState::Update(1));
}

#[test]
fn init_dispatches_the_init_kernel_over_the_whole_image() {
    let mut node = AudiolinkNode::default();
    node.update(KernelStatus::Compiled, KernelStatus::Queued);
    assert_eq!(
        node.run(),
        Some(Dispatch {
            kernel: Kernel::Init,
            bind_group: 0,
            read: ImageSlot::A,
            write: ImageSlot::B,
            workgroups_x: 16,
            workgroups_y: 8,
            workgroups_z: 1,
        })
    );
    assert_eq!(node.published(), ImageSlot::A);
}

#[test]
fn update_dispatches_with_the_bind_group_of_its_role() {
    let mut node = AudiolinkNode::default();
    node.update(KernelStatus::Compiled, KernelStatus::Compiled);
    node.update(KernelStatus::Compiled, KernelStatus::Compiled);
    assert_eq!(
        node.run(),
        Some(Dispatch {
            kernel: Kernel::Update,
            bind_group: 1,
            read: ImageSlot::B,
            write: ImageSlot::A,
            workgroups_x: 16,
            workgroups_y: 8,
            workgroups_z: 1,
        })
    );
    node.update(KernelStatus::Compiled, KernelStatus::Compiled);
    assert_eq!(
        node.run(),
        Some(Dispatch {
            kernel: Kernel::Update,
            bind_group: 0,
            read: ImageSlot::A,
            write: ImageSlot::B,
            workgroups_x: 16,
            workgroups_y: 8,
            workgroups_z: 1,
        })
    );
}

#[test]
fn tiles_cover_the_image() {
    assert_eq!(AUDIOLINK_WIDTH, 128);
    assert_eq!(AUDIOLINK_HEIGHT, 64);
    assert_eq!(WORKGROUP_SIZE, 8);
    let mut node = AudiolinkNode::default();
    node.update(KernelStatus::Compiled, KernelStatus::Compiled);
    let dispatch = node.run().unwrap();
    assert_eq!(dispatch.workgroups_x * WORKGROUP_SIZE, AUDIOLINK_WIDTH);
    assert_eq!(dispatch.workgroups_y * WORKGROUP_SIZE, AUDIOLINK_HEIGHT);
    assert_eq!(dispatch.workgroups_z, 1);
}

#[test]
fn every_dispatch_reads_the_published_image_and_writes_the_other() {
    let mut node = AudiolinkNode::default();
    let mut published_before = None;
    let mut updates = 0;
    for tick in 0..200usize {
        node.update(ready_after(3, tick), ready_after(7, tick));
        let published = node.published();
        if let Some(dispatch) = node.run() {
            assert_eq!(dispatch.read, published);
            assert_ne!(dispatch.write, published);
            assert_eq!((dispatch.read, dispatch.write), bind_group_images(dispatch.bind_group));
            if dispatch.kernel == Kernel::Update {
                updates += 1;
                if let Some((before, written)) = published_before {
                    assert_ne!(published, before);
                    assert_eq!(published, written);
                }
                published_before = Some((published, dispatch.write));
            }
        } else {
            assert_eq!(node.current_state(), AudiolinkState::Loading);
            assert_eq!(published, ImageSlot::A);
        }
    }
    assert_eq!(updates, 194);
}

#[test]
fn first_update_reads_what_init_wrote() {
    let mut node = AudiolinkNode::default();
    node.update(KernelStatus::Compiled, KernelStatus::Queued);
    let seed = node.run().unwrap();
    node.update(KernelStatus::Compiled, KernelStatus::Compiled);
    let first = node.run().unwrap();
    assert_eq!(seed.kernel, Kernel::Init);
    assert_eq!(first.kernel, Kernel::Update);
    assert_eq!(first.read, seed.write);
    assert_eq!(node.published(), ImageSlot::B);
}

#[test]
fn bind_groups_are_mirror_images() {
    assert_eq!(bind_group_images(0), (ImageSlot::A, ImageSlot::B));
    assert_eq!(bind_group_images(1), (ImageSlot::B, ImageSlot::A));
}

#[test]
fn data_texture_shows_what_is_published() {
    let mut texture = AudiolinkDataTexture::new();
    assert_eq!(texture.0, ImageSlot::A);
    texture.publish(ImageSlot::B);
    assert_eq!(texture, AudiolinkDataTexture(ImageSlot::B));
    texture.publish(ImageSlot::B);
    assert_eq!(texture.0, ImageSlot::B);
    texture.publish(ImageSlot::A);
    assert_eq!(texture.0, ImageSlot::A);
}

#[test]
fn published_image_alternates_in_steady_state() {
    let mut node = AudiolinkNode::default();
    node.update(KernelStatus::Compiled, KernelStatus::Compiled);
    node.update(KernelStatus::Compiled, KernelStatus::Compiled);
    let mut texture = AudiolinkDataTexture::new();
    let mut seen = Vec::new();
    for _ in 0..6 {
        texture.publish(node.published());
        seen.push(texture.0);
        node.update(KernelStatus::Compiled, KernelStatus::Compiled);
    }
    assert_eq!(
        seen,
        vec![ImageSlot::B, ImageSlot::A, ImageSlot::B, ImageSlot::A, ImageSlot::B, ImageSlot::A]
    );
}
