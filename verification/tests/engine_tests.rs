use starfarer::lepton::backend::fps_limiter::{FPSLimiter, REFRESH_FRAME};
use starfarer::lepton::control::KeyTracker;
use starfarer::lepton::graphics::primitives::{DoubleBuffered, QueueFamilyIndices, MAX_BUFFERS};
use starfarer::lepton::input::{InputLevel, InputType};
use starfarer::lepton::physics::collider::{
    contact_case, cube_vertex_id, cube_vertex_signs, reduce, ContactCase, GJKState, Simplex, SimplexKind,
    MAX_ITERATIONS,
};
use starfarer::lepton::physics::collisions::{get_collision_type, CollisionError, CollisionType};
use starfarer::lepton::physics::{interaction_pairs, ObjectManager};
use starfarer::lepton::shader::bindings::{model_set_index, split_bindings, LayoutBinding};
use starfarer::lepton::shader::builtin::{
    camera_level, camera_stages, lights_stages, CAMERA_DATA_SIZE, LIGHTS_DATA_SIZE,
};
use starfarer::lepton::shader::input;
use starfarer::lepton::shader::lights::LightSlots;
use starfarer::lepton::shader::primitives::{Data, ShaderStages, FRAGMENT_BIT, VERTEX_BIT};

#[test]
fn key_tracker_follows_presses_and_releases() {
    let mut keys = KeyTracker::new();
    for code in 0..256u32 {
        assert!(!keys.get_state(code));
    }
    keys.key_down(5);
    keys.key_down(200);
    assert!(keys.get_state(5));
    assert!(keys.get_state(200));
    assert!(!keys.get_state(72));
    assert!(!keys.get_state(4));
    keys.key_up(5);
    assert!(!keys.get_state(5));
    assert!(keys.get_state(200));
    keys.key_down(127);
    keys.key_down(127);
    keys.key_up(127);
    assert!(!keys.get_state(127));
    keys.key_up(255);
    assert!(keys.get_state(200));
}

#[test]
fn opposing_keys_cancel_along_an_axis() {
    let mut keys = KeyTracker::new();
    assert_eq!(keys.axis(22, 18), 0);
    keys.key_down(18);
    assert_eq!(keys.axis(22, 18), 1);
    keys.key_down(22);
    assert_eq!(keys.axis(22, 18), 0);
    keys.key_up(18);
    assert_eq!(keys.axis(22, 18), -1);
}

#[test]
fn unlimited_fps_limiter_never_sleeps_or_drops() {
    let mut limiter = FPSLimiter::new();
    assert_eq!(limiter.time_to_sleep(0), None);
    assert_eq!(limiter.time_to_sleep(5), None);
    let tick = limiter.tick_frame(1_000_000);
    assert_eq!(tick.delta_micros, 1_000_000);
    assert!(!tick.restart_clock);
}

#[test]
fn fps_limiter_stretches_and_drops_frames() {
    let mut limiter = FPSLimiter::with_limits(Some(60), Some(30));
    // 1_000_000 / 60 = 16_666 microseconds at least per frame.
    assert_eq!(limiter.time_to_sleep(1_000), Some(15_666));
    assert_eq!(limiter.time_to_sleep(16_666), None);
    assert_eq!(limiter.time_to_sleep(20_000), None);
    let tick = limiter.tick_frame(20_000);
    assert_eq!(tick.delta_micros, 20_000);
    assert!(!tick.restart_clock);
    // The next frame starts at 20_000.
    assert_eq!(limiter.time_to_sleep(21_000), Some(15_666));
    // 40_000 microseconds exceeds 1_000_000 / 30 = 33_333: dropped.
    let tick = limiter.tick_frame(60_000);
    assert_eq!(tick.delta_micros, 0);
    let tick = limiter.tick_frame(93_333);
    assert_eq!(tick.delta_micros, 33_333);
}

#[test]
fn fps_limiter_restarts_its_clock_every_refresh() {
    let mut limiter = FPSLimiter::with_limits(None, None);
    let mut now = 0u128;
    for frame in 1..=REFRESH_FRAME {
        now += 10;
        let tick = limiter.tick_frame(now);
        assert_eq!(tick.delta_micros, 10);
        assert_eq!(tick.restart_clock, frame == REFRESH_FRAME);
    }
    // The caller restarts its clock: readings count from zero again.
    let tick = limiter.tick_frame(7);
    assert_eq!(tick.delta_micros, 7);
    assert!(!tick.restart_clock);
}

#[test]
fn object_identifiers_are_distinct_and_increasing() {
    let mut manager = ObjectManager::new();
    let a = manager.get_object();
    let b = manager.get_object();
    let c = manager.get_object();
    assert_eq!((a, b, c), (0, 1, 2));
}

#[test]
fn gjk_gives_up_after_max_iterations() {
    let mut state = GJKState::new();
    for _ in 0..MAX_ITERATIONS {
        assert!(!state.count_iteration());
    }
    assert!(state.count_iteration());
}

#[test]
fn simplex_grows_by_one_point() {
    let mut s = Simplex::Point(1u32);
    s.push(2);
    assert_eq!(s, Simplex::Line(1, 2));
    s.push(3);
    s.push(4);
    assert_eq!(s, Simplex::Tetrahedron(1, 2, 3, 4));
}

#[test]
fn reduce_keeps_each_point_once() {
    assert_eq!(reduce(4, 4, 4, 4), Simplex::Point(4));
    assert_eq!(reduce(1, 2, 1, 2), Simplex::Line(1, 2));
    assert_eq!(reduce(3, 1, 3, 2), Simplex::Triangle(3, 1, 2));
    assert_eq!(reduce(9, 8, 7, 6), Simplex::Tetrahedron(9, 8, 7, 6));
    assert_eq!(reduce(5, 5, 6, 6).kind(), SimplexKind::Line);
    assert_eq!(
        contact_case(reduce(1, 1, 2, 3).kind(), reduce(4, 5, 6, 7).kind()),
        Some(ContactCase::FaceTet { swapped: false })
    );
}

#[test]
fn contact_cases() {
    assert_eq!(
        contact_case(SimplexKind::Point, SimplexKind::Tetrahedron),
        Some(ContactCase::PointTet { swapped: false })
    );
    assert_eq!(
        contact_case(SimplexKind::Tetrahedron, SimplexKind::Point),
        Some(ContactCase::PointTet { swapped: true })
    );
    assert_eq!(contact_case(SimplexKind::Line, SimplexKind::Line), Some(ContactCase::EdgeEdge));
    assert_eq!(
        contact_case(SimplexKind::Triangle, SimplexKind::Line),
        Some(ContactCase::EdgeFace { swapped: true })
    );
    assert_eq!(contact_case(SimplexKind::Point, SimplexKind::Point), None);
    assert_eq!(contact_case(SimplexKind::Point, SimplexKind::Triangle), None);
    assert_eq!(contact_case(SimplexKind::Line, SimplexKind::Point), None);
}

#[test]
fn contact_case_swap_only_swaps() {
    let kinds = [SimplexKind::Point, SimplexKind::Line, SimplexKind::Triangle, SimplexKind::Tetrahedron];
    for one in kinds.iter() {
        for two in kinds.iter() {
            let forward = contact_case(*one, *two);
            let backward = contact_case(*two, *one);
            let flipped = match forward {
                Some(ContactCase::PointTet { swapped }) => Some(ContactCase::PointTet { swapped: !swapped }),
                Some(ContactCase::EdgeFace { swapped }) => Some(ContactCase::EdgeFace { swapped: !swapped }),
                Some(ContactCase::EdgeTet { swapped }) => Some(ContactCase::EdgeTet { swapped: !swapped }),
                Some(ContactCase::FaceTet { swapped }) => Some(ContactCase::FaceTet { swapped: !swapped }),
                other => other,
            };
            assert_eq!(flipped, backward);
        }
    }
}

#[test]
fn cube_vertex_ids_round_trip() {
    assert_eq!(cube_vertex_id(true, true, true), 0);
    assert_eq!(cube_vertex_id(true, false, true), 2);
    assert_eq!(cube_vertex_id(false, false, false), 7);
    assert_eq!(cube_vertex_signs(5), (false, true, false));
    for id in 0..8usize {
        let (x, y, z) = cube_vertex_signs(id);
        assert_eq!(cube_vertex_id(x, y, z), id);
    }
}

#[test]
fn lights_take_the_first_free_slot() {
    let mut lights = LightSlots::new();
    assert_eq!(lights.num_lights(), 0);
    assert_eq!(lights.illuminate(7), 0);
    assert_eq!(lights.illuminate(9), 1);
    assert_eq!(lights.num_lights(), 2);
    lights.unilluminate(7);
    assert_eq!(lights.get(0), None);
    assert_eq!(lights.get(1), Some(9));
    assert_eq!(lights.num_lights(), 1);
    assert_eq!(lights.illuminate(11), 0);
    lights.unilluminate(99);
    assert_eq!(lights.get(0), Some(11));
    assert_eq!(lights.get(1), Some(9));
}

#[test]
fn unilluminate_undoes_illuminate() {
    let mut lights = LightSlots::new();
    lights.illuminate(3);
    let before = (lights.get(0), lights.get(1));
    lights.illuminate(4);
    lights.unilluminate(4);
    assert_eq!((lights.get(0), lights.get(1)), before);
}

#[test]
fn queue_family_indices_complete_with_both() {
    let mut indices = QueueFamilyIndices::new();
    assert!(!indices.is_complete());
    indices.graphics_family = Some(0);
    assert!(!indices.is_complete());
    indices.present_family = Some(1);
    assert!(indices.is_complete());
}

#[test]
fn double_buffered_holds_one_value_per_frame() {
    let buffers = DoubleBuffered::new(vec![3u64, 4, 5]);
    assert_eq!(buffers.len(), 3);
    assert_eq!(buffers.get(1), 4);
    assert_eq!(buffers.iter().copied().collect::<Vec<u64>>(), vec![3, 4, 5]);
    assert_eq!(buffers.as_array(), &[3, 4, 5, 0, 0, 0, 0, 0]);
    assert_eq!(buffers.as_array().len(), MAX_BUFFERS);
    assert_eq!(buffers.get(6), 0);
    let full = DoubleBuffered::new(vec![1u8; MAX_BUFFERS]);
    assert_eq!(full.len(), MAX_BUFFERS);
}

#[test]
fn shader_stage_sets_combine() {
    assert_eq!(ShaderStages::vertex().f, VERTEX_BIT);
    assert_eq!(ShaderStages::fragment().f, FRAGMENT_BIT);
    assert_eq!(ShaderStages::vertex().and(ShaderStages::fragment()).f, 17);
    assert_eq!(camera_stages().f, 17);
    assert_eq!(lights_stages().f, 17);
    assert_eq!(camera_level(), InputLevel::Shader);
}

struct Transform;

impl Data for Transform {
    fn stages() -> ShaderStages {
        ShaderStages::vertex()
    }
    fn level() -> InputLevel {
        InputLevel::Model
    }
}

#[test]
fn input_types_describe_their_uniforms() {
    assert_eq!(InputType::Camera.get_size(), CAMERA_DATA_SIZE);
    assert_eq!(InputType::Lights.get_size(), LIGHTS_DATA_SIZE);
    assert_eq!(InputType::UI.get_size(), 0);
    assert_eq!(InputType::Texture { level: InputLevel::Model }.get_level(), InputLevel::Model);
    assert_eq!(InputType::Camera.get_level(), InputLevel::Shader);
    assert_eq!(InputType::Camera.get_stages(), 17);
    assert_eq!(InputType::Texture { level: InputLevel::Shader }.get_stages(), FRAGMENT_BIT);
    assert_eq!(InputType::Texture { level: InputLevel::Shader }.get_descriptor_type(), 1);
    assert_eq!(InputType::Lights.get_descriptor_type(), 6);
    let custom = InputType::make_custom::<Transform>();
    assert_eq!(
        custom,
        InputType::Custom { size: 0, shader_stages: ShaderStages::vertex(), level: InputLevel::Model }
    );
    let sized = InputType::Custom { size: 64, shader_stages: ShaderStages::vertex(), level: InputLevel::Model };
    assert_eq!(sized.get_size(), 64);
    assert_eq!(sized.get_stages(), VERTEX_BIT);
    assert_eq!(sized.get_level(), InputLevel::Model);
}

#[test]
fn shader_inputs_know_their_bindings() {
    assert_eq!(input::InputType::Texture(3).get_binding(), 3);
    assert_eq!(input::InputType::Camera.get_binding(), 0);
    assert_eq!(input::InputType::Lights.get_binding(), 1);
    assert_eq!(input::InputType::UI.get_binding(), 0);
    let custom = input::InputType::Custom(0, 64, 5, ShaderStages::fragment());
    assert_eq!(custom.get_binding(), 5);
    assert_eq!(custom.get_size(), 64);
    assert_eq!(custom.get_stages(), FRAGMENT_BIT);
    assert_eq!(custom.get_descriptor_type(), 6);
    assert_eq!(input::InputType::Texture(2).get_descriptor_type(), 1);
    assert_eq!(input::InputType::Texture(2).get_size(), 0);
    assert_eq!(input::InputType::Lights.get_size(), 80);
    assert_eq!(input::InputType::Camera.get_stages(), 17);
}

#[test]
fn inputs_split_into_shader_and_model_sets() {
    let inputs = [
        InputType::Camera,
        InputType::Texture { level: InputLevel::Model },
        InputType::Lights,
        InputType::Custom { size: 16, shader_stages: ShaderStages::vertex(), level: InputLevel::Model },
    ];
    let (shader, model) = split_bindings(&inputs);
    assert_eq!(
        shader,
        vec![
            LayoutBinding { binding: 0, descriptor_type: 6, stage_flags: 17 },
            LayoutBinding { binding: 2, descriptor_type: 6, stage_flags: 17 },
        ]
    );
    assert_eq!(
        model,
        vec![
            LayoutBinding { binding: 1, descriptor_type: 1, stage_flags: FRAGMENT_BIT },
            LayoutBinding { binding: 3, descriptor_type: 6, stage_flags: VERTEX_BIT },
        ]
    );
    assert_eq!(model_set_index(&shader), 1);
    let (shader, model) = split_bindings(&[InputType::Texture { level: InputLevel::Model }]);
    assert!(shader.is_empty());
    assert_eq!(model.len(), 1);
    assert_eq!(model_set_index(&shader), 0);
}

#[test]
fn each_pair_of_bodies_interacts_once() {
    assert_eq!(interaction_pairs(&[5, 2, 9]), vec![(0, 2), (1, 0), (1, 2)]);
    assert!(interaction_pairs(&[3, 3]).is_empty());
    assert!(interaction_pairs(&[]).is_empty());
    let pairs = interaction_pairs(&[4, 1, 3, 2]);
    assert_eq!(pairs.len(), 6);
}

fn distinct_within(ids: [usize; 3], pool: &[usize]) -> bool {
    ids[0] != ids[1] && ids[1] != ids[2] && ids[0] != ids[2] && ids.iter().all(|i| pool.contains(i))
}

#[test]
fn vertex_against_face() {
    match get_collision_type([(1, 5), (1, 6), (1, 7), (2, 8)]) {
        Ok(CollisionType::VertexFace((1,), (a, b, c))) => assert!(distinct_within([a, b, c], &[5, 6, 7, 8])),
        other => panic!("unexpected {:?}", other),
    }
    match get_collision_type([(1, 5), (2, 5), (3, 5), (4, 6)]) {
        Ok(CollisionType::FaceVertex((a, b, c), (5,))) => assert!(distinct_within([a, b, c], &[1, 2, 3, 4])),
        other => panic!("unexpected {:?}", other),
    }
}

#[test]
fn vertex_against_a_face_of_too_few_vertices() {
    assert_eq!(get_collision_type([(1, 5), (1, 5), (1, 6), (2, 6)]), Err(CollisionError::MissingFaceVertices));
    assert_eq!(get_collision_type([(1, 5), (2, 5), (1, 5), (1, 6)]), Err(CollisionError::MissingFaceVertices));
}

#[test]
fn edges_and_faces() {
    assert_eq!(get_collision_type([(1, 5), (1, 6), (2, 5), (3, 7)]), Ok(CollisionType::EdgeEdge((1, 2), (5, 6))));
    assert_eq!(get_collision_type([(1, 5), (1, 6), (2, 7), (3, 8)]), Ok(CollisionType::FaceFace((1, 2, 3), (5, 6, 7))));
    assert_eq!(get_collision_type([(1, 5), (2, 5), (3, 6), (4, 7)]), Ok(CollisionType::FaceFace((1, 2, 3), (5, 6, 7))));
    assert_eq!(get_collision_type([(1, 5), (2, 6), (3, 7), (4, 8)]), Ok(CollisionType::FaceFace((1, 2, 3), (5, 6, 7))));
    assert_eq!(get_collision_type([(1, 5), (1, 6), (1, 7), (1, 8)]), Ok(CollisionType::FaceFace((1, 1, 1), (5, 6, 7))));
    match get_collision_type([(1, 5), (1, 6), (2, 5), (2, 6)]) {
        Ok(CollisionType::EdgeEdge(_, _)) => {},
        other => panic!("unexpected {:?}", other),
    }
}
