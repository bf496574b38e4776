use scene_node::error::DecodeError;
use scene_node::scene::base::Base;
use scene_node::scene::camera::Camera;
use scene_node::scene::handle::Handle;
use scene_node::scene::light::Light;
use scene_node::scene::mesh::Mesh;
use scene_node::scene::node::Node;
use scene_node::scene::particle_system::ParticleSystem;
use scene_node::scene::sprite::Sprite;
use scene_node::scene::transform::{Quaternion, Transform, Vector3};
use scene_node::visitor::{Visit, Visitor};

fn written(node: &Node) -> Vec<u8> {
    let mut node = node.clone();
    let mut visitor = Visitor::new();
    node.visit(&mut visitor).unwrap();
    visitor.into_bytes()
}

fn read(bytes: Vec<u8>) -> Result<Node, DecodeError> {
    let mut node = Node::default();
    let mut visitor = Visitor::from_bytes(bytes);
    node.visit(&mut visitor)?;
    assert_eq!(visitor.remaining(), 0);
    Ok(node)
}

fn furnished(mut node: Node) -> Node {
    let base: &mut Base = &mut node;
    base.set_name("Tür № 7");
    base.set_local_transform(Transform {
        position: Vector3 { x: 1.0f32.to_bits(), y: 2.0f32.to_bits(), z: 3.0f32.to_bits() },
        rotation: Quaternion { x: 0, y: 0.5f32.to_bits(), z: 0, w: 0.5f32.to_bits() },
        scale: Vector3 { x: 4.0f32.to_bits(), y: 5.0f32.to_bits(), z: 6.0f32.to_bits() },
    });
    base.set_visibility(false);
    base.set_parent(Handle { index: 12, generation: 3 });
    base.add_child(Handle { index: 13, generation: 1 });
    base.add_child(Handle { index: 0xFFFF_FFFF, generation: 0x0102_0304 });
    node
}

fn one_of_each_furnished() -> Vec<Node> {
    let mut light = Light::new();
    light.color = 0x8040_20FF;
    light.radius = 2.5f32.to_bits();
    let mut camera = Camera::new();
    camera.fov = 1.0f32.to_bits();
    camera.z_near = 0.5f32.to_bits();
    camera.z_far = 64.0f32.to_bits();
    let mut mesh = Mesh::new();
    mesh.cast_shadows = false;
    let mut sprite = Sprite::new();
    sprite.size = 3.0f32.to_bits();
    sprite.rotation = 0.25f32.to_bits();
    sprite.color = 0x1122_3344;
    let mut system = ParticleSystem::new();
    system.acceleration = Vector3 { x: 1, y: 2, z: f32::NAN.to_bits() };
    vec![
        furnished(Node::Base(Base::new())),
        furnished(Node::Light(light)),
        furnished(Node::Camera(camera)),
        furnished(Node::Mesh(mesh)),
        furnished(Node::Sprite(sprite)),
        furnished(Node::ParticleSystem(system)),
    ]
}

#[test]
fn a_mesh_named_wall_comes_back_as_a_mesh_named_wall() {
    let mut node = Node::Mesh(Mesh::new());
    node.set_name("Wall");
    let mut writer = Visitor::new();
    node.visit(&mut writer).unwrap();
    let bytes = writer.into_bytes();

    let mut reader = Visitor::from_bytes(bytes);
    let mut decoded = Node::default();
    decoded.visit(&mut reader).unwrap();
    assert!(decoded.is_mesh());
    assert_eq!(decoded.name(), "Wall");
}

#[test]
fn every_kind_comes_back_as_it_was_written() {
    for node in one_of_each_furnished() {
        assert_eq!(read(written(&node)), Ok(node));
    }
}

#[test]
fn every_kind_comes_back_in_its_starting_state() {
    for id in 0..=5u8 {
        let node = Node::from_id(id).unwrap();
        assert_eq!(read(written(&node)), Ok(node));
    }
}

#[test]
fn a_write_leaves_the_node_as_it_was() {
    for node in one_of_each_furnished() {
        let mut visited = node.clone();
        let mut visitor = Visitor::new();
        assert_eq!(visited.visit(&mut visitor), Ok(()));
        assert_eq!(visited, node);
        assert!(!visitor.is_reading());
    }
}

#[test]
fn what_is_not_stored_comes_back_as_in_a_new_node() {
    for mut node in one_of_each_furnished() {
        node.set_global_visibility(false);
        let decoded = read(written(&node)).unwrap();
        assert!(decoded.global_visibility());
        assert_ne!(decoded, node);
        node.set_global_visibility(true);
        assert_eq!(decoded, node);
    }
}

#[test]
fn a_read_replaces_whatever_the_destination_held() {
    let source = furnished(Node::Camera(Camera::new()));
    let mut dest = furnished(Node::Sprite(Sprite::new()));
    dest.set_name("something else");
    dest.set_global_visibility(false);
    let mut reader = Visitor::from_bytes(written(&source));
    assert_eq!(dest.visit(&mut reader), Ok(()));
    assert_eq!(dest, source);
}

#[test]
fn nodes_are_read_one_after_the_other() {
    let nodes = one_of_each_furnished();
    let mut writer = Visitor::new();
    for node in &nodes {
        node.clone().visit(&mut writer).unwrap();
    }
    let mut reader = Visitor::from_bytes(writer.into_bytes());
    assert!(reader.is_reading());
    for node in &nodes {
        let mut decoded = Node::default();
        decoded.visit(&mut reader).unwrap();
        assert_eq!(&decoded, node);
    }
    assert_eq!(reader.remaining(), 0);
    assert_eq!(Node::default().visit(&mut reader), Err(DecodeError::UnexpectedEnd));
}

#[test]
fn the_kind_identifier_is_the_first_byte() {
    for node in one_of_each_furnished() {
        assert_eq!(written(&node)[0], node.id());
    }
}

#[test]
fn a_mesh_named_wall_is_laid_out_field_by_field() {
    let mut node = Node::Mesh(Mesh::new());
    node.set_name("Wall");
    node.set_parent(Handle { index: 0x0A0B_0C0D, generation: 2 });
    node.add_child(Handle { index: 5, generation: 6 });
    let mut expected: Vec<u8> = vec![3];
    expected.extend_from_slice(&[4, 0, 0, 0, 0, 0, 0, 0]);
    expected.extend_from_slice(b"Wall");
    for _ in 0..6 {
        expected.extend_from_slice(&[0, 0, 0, 0]);
    }
    expected.extend_from_slice(&[0, 0, 0x80, 0x3F]);
    for _ in 0..3 {
        expected.extend_from_slice(&[0, 0, 0x80, 0x3F]);
    }
    expected.push(1);
    expected.extend_from_slice(&[0x0D, 0x0C, 0x0B, 0x0A, 2, 0, 0, 0]);
    expected.extend_from_slice(&[1, 0, 0, 0, 0, 0, 0, 0]);
    expected.extend_from_slice(&[5, 0, 0, 0, 6, 0, 0, 0]);
    expected.push(1);
    assert_eq!(written(&node), expected);
}

#[test]
fn payload_fields_follow_the_shared_state() {
    let shared = written(&Node::Base(Base::new()));
    assert_eq!(shared.len(), 1 + 8 + 40 + 1 + 8 + 8);

    let mut light = Light::new();
    light.color = 0x0403_0201;
    light.radius = 0x0807_0605;
    let bytes = written(&Node::Light(light));
    assert_eq!(bytes[0], 1);
    assert_eq!(&bytes[1..shared.len()], &shared[1..]);
    assert_eq!(&bytes[shared.len()..], &[1, 2, 3, 4, 5, 6, 7, 8]);

    let mut camera = Camera::new();
    camera.fov = 1;
    camera.z_near = 2;
    camera.z_far = 3;
    let bytes = written(&Node::Camera(camera));
    assert_eq!(&bytes[shared.len()..], &[1, 0, 0, 0, 2, 0, 0, 0, 3, 0, 0, 0]);

    let mut sprite = Sprite::new();
    sprite.size = 1;
    sprite.rotation = 2;
    sprite.color = 3;
    let bytes = written(&Node::Sprite(sprite));
    assert_eq!(&bytes[shared.len()..], &[1, 0, 0, 0, 2, 0, 0, 0, 3, 0, 0, 0]);

    let mut system = ParticleSystem::new();
    system.acceleration = Vector3 { x: 1, y: 2, z: 3 };
    let bytes = written(&Node::ParticleSystem(system));
    assert_eq!(&bytes[shared.len()..], &[1, 0, 0, 0, 2, 0, 0, 0, 3, 0, 0, 0]);

    let mut mesh = Mesh::new();
    mesh.cast_shadows = false;
    let bytes = written(&Node::Mesh(mesh));
    assert_eq!(&bytes[shared.len()..], &[0]);
}

#[test]
fn an_empty_input_leaves_the_destination_alone() {
    let mut dest = furnished(Node::Light(Light::new()));
    let before = dest.clone();
    let mut reader = Visitor::from_bytes(Vec::new());
    assert_eq!(dest.visit(&mut reader), Err(DecodeError::UnexpectedEnd));
    assert_eq!(dest, before);
}

#[test]
fn an_unknown_kind_in_the_input_leaves_the_destination_alone() {
    for kind in [6u8, 7, 100, 255] {
        let mut bytes = written(&Node::Base(Base::new()));
        bytes[0] = kind;
        let total = bytes.len();
        let mut dest = furnished(Node::Light(Light::new()));
        let before = dest.clone();
        let mut reader = Visitor::from_bytes(bytes);
        assert_eq!(dest.visit(&mut reader), Err(DecodeError::UnknownKind(kind)));
        assert_eq!(dest, before);
        assert_eq!(reader.remaining(), total - 1);
    }
}

#[test]
fn every_truncated_input_ends_unexpectedly() {
    for node in one_of_each_furnished() {
        let bytes = written(&node);
        for len in 0..bytes.len() {
            assert_eq!(read(bytes[..len].to_vec()), Err(DecodeError::UnexpectedEnd));
        }
    }
}

#[test]
fn a_failed_payload_leaves_a_node_of_the_kind_that_was_read() {
    let source = furnished(Node::Camera(Camera::new()));
    let bytes = written(&source);
    let mut dest = furnished(Node::Sprite(Sprite::new()));
    let mut reader = Visitor::from_bytes(bytes[..5].to_vec());
    assert_eq!(dest.visit(&mut reader), Err(DecodeError::UnexpectedEnd));
    assert_eq!(dest, Node::Camera(Camera::new()));
    assert_eq!(reader.remaining(), 4);

    let mut dest = Node::default();
    let mut reader = Visitor::from_bytes(bytes[..bytes.len() - 1].to_vec());
    assert_eq!(dest.visit(&mut reader), Err(DecodeError::UnexpectedEnd));
    let mut expected = source.clone();
    expected.as_camera_mut().z_far = Camera::new().z_far;
    assert_eq!(dest, expected);
    assert_eq!(reader.remaining(), 3);
}

#[test]
fn a_flag_other_than_zero_and_one_is_refused() {
    let mut bytes = written(&Node::Mesh(Mesh::new()));
    let last = bytes.len() - 1;
    bytes[last] = 2;
    assert_eq!(read(bytes.clone()), Err(DecodeError::InvalidBool(2)));
    bytes[last] = 0xFF;
    assert_eq!(read(bytes.clone()), Err(DecodeError::InvalidBool(0xFF)));
    bytes[last] = 0;
    let mut expected = Mesh::new();
    expected.cast_shadows = false;
    assert_eq!(read(bytes), Ok(Node::Mesh(expected)));
}

#[test]
fn a_name_that_is_not_utf8_is_refused() {
    let mut node = Node::Base(Base::new());
    node.set_name("ab");
    let mut bytes = written(&node);
    bytes[9] = 0xFF;
    let mut dest = Node::default();
    let mut reader = Visitor::from_bytes(bytes.clone());
    assert_eq!(dest.visit(&mut reader), Err(DecodeError::InvalidUtf8));
    assert_eq!(dest, Node::default());
    assert_eq!(reader.remaining(), bytes.len() - 1);

    bytes[9] = 0xC3;
    bytes[10] = 0xA9;
    let decoded = read(bytes).unwrap();
    assert_eq!(decoded.name(), "é");
}

#[test]
fn a_name_outside_ascii_comes_back() {
    for name in ["", "Wall", "Mur № 3", "壁", "🧱🧱"] {
        let mut node = Node::Light(Light::new());
        node.set_name(name);
        let bytes = written(&node);
        assert_eq!(bytes[1] as usize, name.len());
        assert_eq!(&bytes[9..9 + name.len()], name.as_bytes());
        let decoded = read(bytes).unwrap();
        assert_eq!(decoded.name(), name);
    }
}

#[test]
fn an_announced_length_beyond_the_input_is_refused() {
    let bytes = written(&Node::Base(Base::new()));
    let mut long_name = bytes.clone();
    long_name[1..9].copy_from_slice(&u64::MAX.to_le_bytes());
    assert_eq!(read(long_name), Err(DecodeError::UnexpectedEnd));
    let mut long_name = bytes.clone();
    long_name[1] = (bytes.len() - 8) as u8;
    assert_eq!(read(long_name), Err(DecodeError::UnexpectedEnd));

    let count_at = bytes.len() - 8;
    let mut many_children = bytes.clone();
    many_children[count_at..].copy_from_slice(&u64::MAX.to_le_bytes());
    assert_eq!(read(many_children), Err(DecodeError::UnexpectedEnd));
    let mut many_children = bytes.clone();
    many_children[count_at..].copy_from_slice(&(1u64 << 61).to_le_bytes());
    assert_eq!(read(many_children), Err(DecodeError::UnexpectedEnd));
    let mut one_child = bytes.clone();
    one_child[count_at] = 1;
    one_child.extend_from_slice(&[0; 7]);
    assert_eq!(read(one_child), Err(DecodeError::UnexpectedEnd));
}

#[test]
fn fields_pass_through_a_session_on_their_own() {
    let mut writer = Visitor::new();
    let mut byte = 0xABu8;
    let mut word = 0x0102_0304u32;
    let mut flag = true;
    let mut text = String::from("né");
    let mut handle = Handle { index: 1, generation: 2 };
    let mut handles = vec![Handle { index: 3, generation: 4 }, Handle::none()];
    byte.visit(&mut writer).unwrap();
    word.visit(&mut writer).unwrap();
    flag.visit(&mut writer).unwrap();
    text.visit(&mut writer).unwrap();
    handle.visit(&mut writer).unwrap();
    handles.visit(&mut writer).unwrap();
    assert_eq!(writer.remaining(), 0);
    let bytes = writer.into_bytes();
    let mut expected: Vec<u8> = vec![0xAB, 4, 3, 2, 1, 1];
    expected.extend_from_slice(&[3, 0, 0, 0, 0, 0, 0, 0, b'n', 0xC3, 0xA9]);
    expected.extend_from_slice(&[1, 0, 0, 0, 2, 0, 0, 0]);
    expected.extend_from_slice(&[2, 0, 0, 0, 0, 0, 0, 0]);
    expected.extend_from_slice(&[3, 0, 0, 0, 4, 0, 0, 0, 0, 0, 0, 0, 0, 0, 0, 0]);
    assert_eq!(bytes, expected);

    let mut reader = Visitor::from_bytes(bytes);
    let (mut byte2, mut word2, mut flag2) = (0u8, 0u32, false);
    let mut text2 = String::new();
    let mut handle2 = Handle::none();
    let mut handles2: Vec<Handle> = Vec::new();
    byte2.visit(&mut reader).unwrap();
    word2.visit(&mut reader).unwrap();
    flag2.visit(&mut reader).unwrap();
    text2.visit(&mut reader).unwrap();
    handle2.visit(&mut reader).unwrap();
    assert_eq!(reader.remaining(), 24);
    handles2.visit(&mut reader).unwrap();
    assert_eq!((byte2, word2, flag2), (byte, word, flag));
    assert_eq!(text2, text);
    assert_eq!(handle2, handle);
    assert_eq!(handles2, handles);
    assert_eq!(reader.into_bytes(), Vec::<u8>::new());
}

#[test]
fn a_transform_is_read_whole_or_not_at_all() {
    let mut transform = Transform {
        position: Vector3 { x: 1, y: 2, z: 3 },
        rotation: Quaternion { x: 4, y: 5, z: 6, w: 7 },
        scale: Vector3 { x: 8, y: 9, z: 10 },
    };
    let mut writer = Visitor::new();
    transform.visit(&mut writer).unwrap();
    let bytes = writer.into_bytes();
    assert_eq!(bytes.len(), 40);
    for (i, chunk) in bytes.chunks(4).enumerate() {
        assert_eq!(chunk, &[(i + 1) as u8, 0, 0, 0]);
    }

    let mut dest = Transform::identity();
    let mut reader = Visitor::from_bytes(bytes[..39].to_vec());
    assert_eq!(dest.visit(&mut reader), Err(DecodeError::UnexpectedEnd));
    assert_eq!(dest, Transform::identity());
    assert_eq!(reader.remaining(), 39);

    let mut reader = Visitor::from_bytes(bytes);
    assert_eq!(dest.visit(&mut reader), Ok(()));
    assert_eq!(dest, transform);
}

#[test]
fn a_session_hands_out_what_it_has_not_consumed() {
    let mut reader = Visitor::from_bytes(vec![9, 8, 7]);
    let mut byte = 0u8;
    byte.visit(&mut reader).unwrap();
    assert_eq!(byte, 9);
    assert_eq!(reader.remaining(), 2);
    assert_eq!(reader.into_bytes(), vec![8, 7]);
    assert_eq!(Visitor::new().into_bytes(), Vec::<u8>::new());
}
