use pocketjs_kobo::mesh::AssetError;
use pocketjs_kobo::mesh_layout::{ChannelPath, FloatCheck, MAX_ASSET_BYTES, decode_layout};

fn f(v: f32) -> u32 {
    v.to_bits()
}

struct Asset {
    bytes: Vec<u8>,
}

impl Asset {
    fn new() -> Self {
        Asset { bytes: b"P3M1".to_vec() }
    }
    fn u8(mut self, v: u8) -> Self {
        self.bytes.push(v);
        self
    }
    fn u16(mut self, v: u16) -> Self {
        self.bytes.extend(v.to_le_bytes());
        self
    }
    fn u32(mut self, v: u32) -> Self {
        self.bytes.extend(v.to_le_bytes());
        self
    }
    fn floats(mut self, vs: &[f32]) -> Self {
        for v in vs {
            self.bytes.extend(v.to_le_bytes());
        }
        self
    }
    fn name(mut self, s: &str) -> Self {
        self.bytes.extend((s.len() as u16).to_le_bytes());
        self.bytes.extend(s.as_bytes());
        self
    }
    fn header(self, nodes: u32, nv: u32, ni: u32, nc: u32) -> Self {
        self.u32(nodes).u32(nv).u32(ni).u32(nc)
    }
    fn node(self, name: &str, parent: u32) -> Self {
        self.name(name)
            .u32(parent)
            .floats(&[0.0, 1.0, 0.0, 0.0, 0.0, 0.0, 1.0, 1.0, 1.0, 1.0])
    }
    fn vertex(self, joint: u16) -> Self {
        self.floats(&[0.0, 0.0, 0.0, 0.0, 1.0, 0.0, 0.5, 0.5, 0.5]).u16(joint)
    }
}

/// Two nodes, a triangle bound to them, and one clip that rotates the child.
fn sample() -> Asset {
    Asset::new()
        .header(2, 3, 3, 1)
        .node("root", u32::MAX)
        .node("arm", 0)
        .vertex(0)
        .vertex(1)
        .vertex(1)
        .u32(0)
        .u32(1)
        .u32(2)
        .name("wave")
        .floats(&[2.0])
        .u32(1)
        .u16(1)
        .u8(1)
        .u16(2)
        .floats(&[0.0, 0.0, 0.0, 0.0, 1.0])
        .floats(&[1.0, 0.0, 0.0, 0.0, 1.0])
}

#[test]
fn a_well_formed_asset_decodes_with_its_float_rules_in_order() {
    let bytes = sample().bytes;
    let scan = decode_layout(&bytes);
    let layout = scan.outcome.clone().unwrap();
    assert_eq!(layout.names, vec!["root".to_string(), "arm".to_string()]);
    assert_eq!(layout.nodes[0].parent, u32::MAX);
    assert_eq!(layout.nodes[1].parent, 0);
    assert_eq!(layout.nodes[1].translation, (f(0.0), f(1.0), f(0.0)));
    assert_eq!(layout.vertices.len(), 3);
    assert_eq!(layout.vertices[2].joint, 1);
    assert_eq!(layout.indices, vec![0, 1, 2]);
    assert_eq!(layout.clips.len(), 1);
    let clip = &layout.clips[0];
    assert_eq!(clip.name, "wave");
    assert_eq!(clip.duration, f(2.0));
    assert_eq!(clip.channels[0].node, 1);
    assert_eq!(clip.channels[0].path, ChannelPath::Rotation);
    assert_eq!(clip.channels[0].times, vec![f(0.0), f(1.0)]);
    assert_eq!(clip.channels[0].values.len(), 8);

    let rest = FloatCheck::NodeTransform {
        rotation: (f(0.0), f(0.0), f(0.0), f(1.0)),
        scale: (f(1.0), f(1.0), f(1.0)),
    };
    let gray = FloatCheck::VertexColor { color: (f(0.5), f(0.5), f(0.5)) };
    let upright = FloatCheck::KeyRotation { rotation: (f(0.0), f(0.0), f(0.0), f(1.0)) };
    assert_eq!(
        scan.checks,
        vec![
            rest,
            rest,
            gray,
            gray,
            gray,
            FloatCheck::ClipDuration { duration: f(2.0) },
            FloatCheck::KeyTime { time: f(0.0), duration: f(2.0), previous: None },
            upright,
            FloatCheck::KeyTime { time: f(1.0), duration: f(2.0), previous: Some(f(0.0)) },
            upright,
        ]
    );
    let verdicts = vec![true; scan.checks.len()];
    assert_eq!(scan.finish(&verdicts), Ok(layout));
}

#[test]
fn a_failed_float_rule_makes_the_asset_invalid() {
    let bytes = sample().bytes;
    let scan = decode_layout(&bytes);
    let mut verdicts = vec![true; scan.checks.len()];
    verdicts[3] = false;
    assert_eq!(scan.finish(&verdicts), Err(AssetError::Invalid));
}

#[test]
fn a_failed_float_rule_wins_over_a_later_structural_error() {
    let mut bytes = sample().bytes;
    bytes.truncate(bytes.len() - 3);
    let scan = decode_layout(&bytes);
    assert_eq!(scan.outcome, Err(AssetError::Truncated));
    assert_eq!(scan.checks.len(), 9);
    let mut verdicts = vec![true; 9];
    assert_eq!(decode_layout(&bytes).finish(&verdicts), Err(AssetError::Truncated));
    verdicts[8] = false;
    assert_eq!(scan.finish(&verdicts), Err(AssetError::Invalid));
}

#[test]
fn clips_are_found_by_name() {
    let bytes = sample().bytes;
    let layout = decode_layout(&bytes).outcome.unwrap();
    assert_eq!(layout.clip("wave"), Some(0));
    assert_eq!(layout.clip("Wave"), None);
    assert_eq!(layout.clip(""), None);
}

#[test]
fn the_envelope_is_checked_before_the_body() {
    let huge = vec![0u8; MAX_ASSET_BYTES + 1];
    assert_eq!(decode_layout(&huge).outcome, Err(AssetError::Limit));
    assert_eq!(decode_layout(b"P3M").outcome, Err(AssetError::Truncated));
    assert_eq!(decode_layout(b"P3M2").outcome, Err(AssetError::Format));
    let scan = decode_layout(b"P3M1");
    assert_eq!(scan.outcome, Err(AssetError::Truncated));
    assert!(scan.checks.is_empty());
}

#[test]
fn header_counts_are_bounded_and_consistent() {
    let nodes = Asset::new().header(257, 0, 0, 0).bytes;
    assert_eq!(decode_layout(&nodes).outcome, Err(AssetError::Limit));
    let vertices = Asset::new().header(1, 100_001, 0, 0).bytes;
    assert_eq!(decode_layout(&vertices).outcome, Err(AssetError::Limit));
    let clips = Asset::new().header(1, 0, 0, 65).bytes;
    assert_eq!(decode_layout(&clips).outcome, Err(AssetError::Limit));
    let no_nodes = Asset::new().header(0, 0, 0, 0).bytes;
    assert_eq!(decode_layout(&no_nodes).outcome, Err(AssetError::Invalid));
    let ragged = Asset::new().header(1, 1, 2, 0).bytes;
    assert_eq!(decode_layout(&ragged).outcome, Err(AssetError::Invalid));
}

#[test]
fn references_must_point_backwards_or_inside() {
    let forward_parent = Asset::new().header(1, 0, 0, 0).node("a", 0).bytes;
    assert_eq!(decode_layout(&forward_parent).outcome, Err(AssetError::Invalid));
    let stray_joint = Asset::new().header(1, 1, 0, 0).node("a", u32::MAX).vertex(1).bytes;
    assert_eq!(decode_layout(&stray_joint).outcome, Err(AssetError::Invalid));
    let stray_index = Asset::new()
        .header(1, 1, 3, 0)
        .node("a", u32::MAX)
        .vertex(0)
        .u32(0)
        .u32(1)
        .u32(0)
        .bytes;
    assert_eq!(decode_layout(&stray_index).outcome, Err(AssetError::Invalid));
}

#[test]
fn non_finite_floats_and_unknown_paths_are_invalid() {
    let nan = Asset::new()
        .header(1, 0, 0, 0)
        .name("a")
        .u32(u32::MAX)
        .floats(&[f32::NAN])
        .bytes;
    assert_eq!(decode_layout(&nan).outcome, Err(AssetError::Invalid));
    let path = Asset::new()
        .header(1, 0, 0, 1)
        .node("a", u32::MAX)
        .name("c")
        .floats(&[1.0])
        .u32(1)
        .u16(0)
        .u8(3)
        .bytes;
    assert_eq!(decode_layout(&path).outcome, Err(AssetError::Invalid));
}

#[test]
fn channels_need_a_real_node_and_at_least_one_key() {
    let channel = |node: u16, keys: u16| {
        Asset::new()
            .header(1, 0, 0, 1)
            .node("a", u32::MAX)
            .name("c")
            .floats(&[1.0])
            .u32(1)
            .u16(node)
            .u8(0)
            .u16(keys)
            .floats(&[0.5, 1.0, 2.0, 3.0])
            .bytes
    };
    assert!(decode_layout(&channel(0, 1)).outcome.is_ok());
    assert_eq!(decode_layout(&channel(1, 1)).outcome, Err(AssetError::Limit));
    assert_eq!(decode_layout(&channel(0, 0)).outcome, Err(AssetError::Limit));
    let too_many = Asset::new()
        .header(1, 0, 0, 1)
        .node("a", u32::MAX)
        .name("c")
        .floats(&[1.0])
        .u32(4)
        .bytes;
    assert_eq!(decode_layout(&too_many).outcome, Err(AssetError::Limit));
}

#[test]
fn trailing_bytes_are_a_format_error() {
    let bytes = sample().u8(0).bytes;
    assert_eq!(decode_layout(&bytes).outcome, Err(AssetError::Format));
}

#[test]
fn a_single_root_decodes_with_its_skeleton_order() {
    let bytes = [
        &b"P3M1"[..],
        &[1, 0, 0, 0],
        &[0u8; 12],
        &[0, 0],
        &[255, 255, 255, 255],
        &[0u8; 24],
        &[0, 0, 128, 63],
        &[0, 0, 128, 63, 0, 0, 128, 63, 0, 0, 128, 63],
    ]
    .concat();
    assert_eq!(bytes.len(), 66);
    let layout = decode_layout(&bytes).outcome.unwrap();
    assert_eq!(layout.names, vec![String::new()]);
    assert_eq!(layout.parents(), vec![usize::MAX]);
    assert_eq!(layout.evaluation_order(), vec![0]);
    assert!(layout.vertices.is_empty() && layout.indices.is_empty() && layout.clips.is_empty());
}

#[test]
fn parents_keep_their_indices_and_roots_become_usize_max() {
    let bytes = sample().bytes;
    let layout = decode_layout(&bytes).outcome.unwrap();
    assert_eq!(layout.parents(), vec![usize::MAX, 0]);
    assert_eq!(layout.evaluation_order(), vec![0, 1]);
}
