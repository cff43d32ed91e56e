use totality::render::controls::{
    key_direction, next_clear_color_mode, DisplayFlags, RotationInput, StateMap, WindowPurpose, WorldEvent,
};
use totality::render::requests::{choose_render_request, next_draw_selection, RenderChoice};
use totality::render::device::{
    DeviceSelectionError, PhysicalDeviceInfo, PhysicalDeviceType, RendererPreferences,
};

fn device(name: &str, device_type: PhysicalDeviceType, swapchain: bool, families: Vec<bool>) -> PhysicalDeviceInfo {
    PhysicalDeviceInfo {
        enumeration_index: 0,
        device_name: name.to_string(),
        device_type,
        supports_swapchain: swapchain,
        graphics_families: families,
    }
}

fn no_preference() -> RendererPreferences {
    RendererPreferences::default()
}

#[test]
fn scores_follow_the_kind_ranking() {
    let pref = no_preference();
    let name = "gpu".to_string();
    assert_eq!(pref.score_physical_device(&name, PhysicalDeviceType::Other), 1);
    assert_eq!(pref.score_physical_device(&name, PhysicalDeviceType::Cpu), 2);
    assert_eq!(pref.score_physical_device(&name, PhysicalDeviceType::VirtualGpu), 3);
    assert_eq!(pref.score_physical_device(&name, PhysicalDeviceType::IntegratedGpu), 4);
    assert_eq!(pref.score_physical_device(&name, PhysicalDeviceType::DiscreteGpu), 5);
}

#[test]
fn preferred_name_and_kind_shift_the_score() {
    let pref = RendererPreferences {
        preferred_physical_device: Some("gpu".to_string()),
        preferred_physical_device_type: Some(PhysicalDeviceType::Cpu),
    };
    // Name matches, kind does not: (1 << 1) * 6 + rank.
    assert_eq!(pref.score_physical_device(&"gpu".to_string(), PhysicalDeviceType::DiscreteGpu), 17);
    // Name and kind match: (1 << 2) * 6 + rank.
    assert_eq!(pref.score_physical_device(&"gpu".to_string(), PhysicalDeviceType::Cpu), 26);
    // Kind alone counts for nothing beyond its rank.
    assert_eq!(pref.score_physical_device(&"other".to_string(), PhysicalDeviceType::Cpu), 2);
}

#[test]
fn ordering_drops_devices_without_swapchains_and_sorts_up() {
    let pref = no_preference();
    let devices = vec![
        device("d", PhysicalDeviceType::DiscreteGpu, true, vec![true]),
        device("c", PhysicalDeviceType::Cpu, false, vec![true]),
        device("i", PhysicalDeviceType::IntegratedGpu, true, vec![true]),
        device("o", PhysicalDeviceType::Other, true, vec![true]),
    ];
    let ordered = pref.order_physical_devices(devices);
    let names: Vec<&str> = ordered.iter().map(|d| d.device_name.as_str()).collect();
    assert_eq!(names, vec!["o", "i", "d"]);
}

#[test]
fn ordering_keeps_ties_in_the_given_order() {
    let pref = no_preference();
    let devices = vec![
        device("first", PhysicalDeviceType::IntegratedGpu, true, vec![true]),
        device("low", PhysicalDeviceType::Other, true, vec![true]),
        device("second", PhysicalDeviceType::IntegratedGpu, true, vec![true]),
        device("third", PhysicalDeviceType::IntegratedGpu, true, vec![true]),
    ];
    let ordered = pref.order_physical_devices(devices);
    let names: Vec<&str> = ordered.iter().map(|d| d.device_name.as_str()).collect();
    assert_eq!(names, vec!["low", "first", "second", "third"]);
}

#[test]
fn selection_takes_the_first_graphics_family_of_the_best_device() {
    let pref = no_preference();
    let devices = vec![
        device("d", PhysicalDeviceType::DiscreteGpu, true, vec![false, false, true, true]),
        device("v", PhysicalDeviceType::VirtualGpu, true, vec![true]),
    ];
    let sel = pref.select_physical_device(devices).unwrap();
    assert_eq!(sel.selected_physical_device_idx, 1);
    assert_eq!(sel.selected_queue_family_idx, 2);
    assert_eq!(sel.ordered_physical_devices[1].device_name, "d");
    assert_eq!(sel.ordered_physical_devices.len(), 2);
}

#[test]
fn discrete_gpu_beats_cpu() {
    let pref = no_preference();
    let devices = vec![
        device("gpu", PhysicalDeviceType::DiscreteGpu, true, vec![true]),
        device("cpu", PhysicalDeviceType::Cpu, true, vec![true]),
    ];
    let sel = pref.select_physical_device(devices).unwrap();
    assert_eq!(sel.ordered_physical_devices[sel.selected_physical_device_idx].device_name, "gpu");
}

#[test]
fn selection_errors() {
    let pref = no_preference();
    let none = pref.select_physical_device(vec![device("c", PhysicalDeviceType::Cpu, false, vec![true])]);
    assert_eq!(none.unwrap_err(), DeviceSelectionError::NoPhysicalDevice);
    let empty = pref.select_physical_device(Vec::new());
    assert_eq!(empty.unwrap_err(), DeviceSelectionError::NoPhysicalDevice);
    let no_graphics = pref.select_physical_device(vec![
        device("o", PhysicalDeviceType::Other, true, vec![true]),
        device("d", PhysicalDeviceType::DiscreteGpu, true, vec![false, false]),
    ]);
    assert_eq!(no_graphics.unwrap_err(), DeviceSelectionError::PhysicalDeviceMissingGraphicsCapabilities);
}

#[test]
fn preferred_device_is_selected() {
    // The preferred device scores highest, so it is chosen over a discrete GPU.
    let pref = RendererPreferences { preferred_physical_device: Some("pick".to_string()), preferred_physical_device_type: None };
    let devices = vec![
        device("pick", PhysicalDeviceType::Other, true, vec![true]),
        device("d", PhysicalDeviceType::DiscreteGpu, true, vec![true]),
    ];
    let sel = pref.select_physical_device(devices).unwrap();
    assert_eq!(sel.ordered_physical_devices[0].device_name, "d");
    assert_eq!(sel.ordered_physical_devices[sel.selected_physical_device_idx].device_name, "pick");
}

#[test]
fn movement_keys_set_their_flags() {
    let mut keys = StateMap::new();
    let mut flags = DisplayFlags::default();
    assert_eq!(keys.handle(&mut flags, WorldEvent::SetMoveForward(true)), RotationInput::NoRotation);
    assert!(keys.z_neg && !keys.z_pos);
    keys.handle(&mut flags, WorldEvent::SetMoveLeft(true));
    keys.handle(&mut flags, WorldEvent::SetMoveUp(true));
    assert_eq!(keys.displacement_steps(), (-1, 1, -1));
    keys.handle(&mut flags, WorldEvent::SetMoveBackward(true));
    keys.handle(&mut flags, WorldEvent::SetMoveRight(true));
    keys.handle(&mut flags, WorldEvent::SetMoveDown(true));
    assert_eq!(keys.displacement_steps(), (0, 0, 0));
    keys.handle(&mut flags, WorldEvent::SetRollRight(true));
    assert_eq!(keys.roll_step(), 1);
    keys.handle(&mut flags, WorldEvent::SetRollLeft(true));
    assert_eq!(keys.roll_step(), 0);
    keys.handle(&mut flags, WorldEvent::SetRollRight(false));
    assert_eq!(keys.roll_step(), -1);
    assert_eq!(flags, DisplayFlags::default());
}

#[test]
fn rotations_are_handed_back() {
    let mut keys = StateMap::new();
    let mut flags = DisplayFlags::default();
    let yaw = 0.25f32.to_bits();
    assert_eq!(keys.handle(&mut flags, WorldEvent::Yaw(yaw)), RotationInput::Yaw(yaw));
    assert_eq!(keys.handle(&mut flags, WorldEvent::Pitch(7)), RotationInput::Pitch(7));
    assert_eq!(keys, StateMap::new());
}

#[test]
fn held_wireframe_key_toggles_once() {
    let mut keys = StateMap::new();
    let mut flags = DisplayFlags::default();
    assert!(!flags.is_wireframe);
    keys.handle(&mut flags, WorldEvent::ToggleWireFrame(true));
    assert!(flags.is_wireframe);
    keys.handle(&mut flags, WorldEvent::ToggleWireFrame(true));
    assert!(flags.is_wireframe);
    keys.handle(&mut flags, WorldEvent::ToggleWireFrame(false));
    assert!(flags.is_wireframe);
    keys.handle(&mut flags, WorldEvent::ToggleWireFrame(true));
    assert!(!flags.is_wireframe);
}

#[test]
fn background_cycles_through_four_colours() {
    let mut keys = StateMap::new();
    let mut flags = DisplayFlags::default();
    assert_eq!(flags.clear_color_mode, 3);
    let mut seen = Vec::new();
    for _ in 0..4 {
        keys.handle(&mut flags, WorldEvent::ShiftBackground(true));
        keys.handle(&mut flags, WorldEvent::ShiftBackground(true));
        keys.handle(&mut flags, WorldEvent::ShiftBackground(false));
        seen.push(flags.clear_color_mode);
    }
    assert_eq!(seen, vec![0, 1, 2, 3]);
    assert_eq!(next_clear_color_mode(7), 0);
    assert_eq!(WindowPurpose::Primary, WindowPurpose::Primary);
}

#[test]
fn movement_keys_map_to_directions() {
    assert_eq!(key_direction('w'), Some((0, 0, -1)));
    assert_eq!(key_direction('a'), Some((-1, 0, 0)));
    assert_eq!(key_direction('s'), Some((0, 0, 1)));
    assert_eq!(key_direction('d'), Some((1, 0, 0)));
    assert_eq!(key_direction('q'), Some((0, 1, 0)));
    assert_eq!(key_direction('e'), Some((0, -1, 0)));
    assert_eq!(key_direction('x'), None);
}

#[test]
fn draw_selection_flips() {
    assert_eq!(next_draw_selection(1), 0);
    assert_eq!(next_draw_selection(0), 1);
    assert_eq!(next_draw_selection(4), 1);
    assert_eq!(next_draw_selection(-2), -1);
    assert_eq!(next_draw_selection(-3), 0);
}

#[test]
fn render_requests() {
    let (choice, restart) = choose_render_request(true, 0, true);
    assert!(matches!(choice, RenderChoice::Restart));
    assert!(!restart);
    match choose_render_request(false, 0, true).0 {
        RenderChoice::DrawGroupWithSetting { models, should_use_depth } => {
            assert_eq!(models, vec![0]);
            assert!(should_use_depth);
        }
        other => panic!("unexpected {:?}", other),
    }
    match choose_render_request(false, 1, false).0 {
        RenderChoice::DrawGroupWithSetting { models, should_use_depth } => {
            assert_eq!(models, vec![1, 2]);
            assert!(!should_use_depth);
        }
        other => panic!("unexpected {:?}", other),
    }
}

use totality::render::swapchain::{
    choose_composite_alpha, choose_format, choose_present_mode, is_stale_for_window, next_frame, plan_swapchain,
    select_adapter, swapchain_image_count, CompositeAlpha, FormatChoice, PresentMode,
};

#[test]
fn adapter_selection_takes_the_first_drawing_family() {
    let adapters = vec![vec![false, false], vec![], vec![false, true, true], vec![true]];
    assert_eq!(select_adapter(&adapters), Ok((2, 1)));
    assert_eq!(select_adapter(&vec![vec![false]]), Err("Couldn't find a graphical Adapter!"));
    assert_eq!(select_adapter(&vec![]), Err("Couldn't find a graphical Adapter!"));
}

#[test]
fn presentation_preferences() {
    assert_eq!(choose_present_mode(&vec![PresentMode::Immediate, PresentMode::Fifo]), Some(PresentMode::Fifo));
    assert_eq!(choose_present_mode(&vec![PresentMode::Fifo, PresentMode::Mailbox]), Some(PresentMode::Mailbox));
    assert_eq!(choose_present_mode(&vec![PresentMode::Immediate]), Some(PresentMode::Immediate));
    assert_eq!(choose_present_mode(&vec![]), None);
    assert_eq!(
        choose_composite_alpha(&vec![CompositeAlpha::PostMultiplied, CompositeAlpha::Inherit]),
        Some(CompositeAlpha::Inherit)
    );
    assert_eq!(choose_composite_alpha(&vec![]), None);
}

#[test]
fn format_preferences() {
    assert_eq!(choose_format(&None), Ok(FormatChoice::DefaultRgba8Srgb));
    assert_eq!(choose_format(&Some(vec![false, true, true])), Ok(FormatChoice::Preferred(1)));
    assert_eq!(choose_format(&Some(vec![false, false])), Ok(FormatChoice::Preferred(0)));
    assert_eq!(choose_format(&Some(vec![])), Err("Preferred format list was empty!"));
}

#[test]
fn image_counts() {
    assert_eq!(swapchain_image_count(8, PresentMode::Mailbox), 3);
    assert_eq!(swapchain_image_count(8, PresentMode::Fifo), 2);
    assert_eq!(swapchain_image_count(2, PresentMode::Mailbox), 1);
    assert_eq!(swapchain_image_count(1, PresentMode::Fifo), 0);
}

#[test]
fn swapchain_plans_and_refusals() {
    let modes = vec![PresentMode::Fifo];
    let alphas = vec![CompositeAlpha::Opaque];
    let plan = plan_swapchain(&modes, &alphas, &None, (800, 600), Some((640, 900)), 4, true).unwrap();
    assert_eq!(plan.present_mode, PresentMode::Fifo);
    assert_eq!(plan.composite_alpha, CompositeAlpha::Opaque);
    assert_eq!(plan.format, FormatChoice::DefaultRgba8Srgb);
    assert_eq!(plan.image_count, 2);
    assert_eq!((plan.extent.width, plan.extent.height), (640, 600));
    assert_eq!(plan_swapchain(&modes, &alphas, &None, (800, 600), None, 4, true), Err("Window doesn't exist!"));
    assert_eq!(plan_swapchain(&vec![], &alphas, &None, (1, 1), Some((1, 1)), 4, true), Err("No PresentMode values specified!"));
    assert_eq!(plan_swapchain(&modes, &vec![], &None, (1, 1), Some((1, 1)), 4, true), Err("No CompositeAlpha values specified!"));
    assert_eq!(plan_swapchain(&modes, &alphas, &Some(vec![]), (1, 1), Some((1, 1)), 4, true), Err("Preferred format list was empty!"));
    assert_eq!(plan_swapchain(&modes, &alphas, &None, (1, 1), Some((1, 1)), 4, false), Err("The Surface isn't capable of supporting color!"));
    // The first thing missing is the one reported.
    assert_eq!(plan_swapchain(&vec![], &vec![], &Some(vec![]), (1, 1), None, 4, false), Err("No PresentMode values specified!"));
}

#[test]
fn frames_and_staleness() {
    assert_eq!(next_frame(0, 3), 1);
    assert_eq!(next_frame(2, 3), 0);
    assert!(is_stale_for_window((800, 600), (800, 600)));
    assert!(!is_stale_for_window((800, 600), (640, 480)));
}

use totality::render::model_memory::{DrawCall, DrawRequest, LoadPlan, LoadedModelHandles, ModelMemory};

#[test]
fn meshes_load_once_side_by_side() {
    let mut mem = ModelMemory::new();
    assert_eq!(
        mem.load_model(7, 8, 36, 256, 144),
        LoadPlan::CopyTo { vertex_byte_start: 0, index_byte_start: 0 }
    );
    assert_eq!(mem.load_model(7, 8, 36, 256, 144), LoadPlan::AlreadyLoaded);
    assert_eq!(
        mem.load_model(9, 3, 3, 96, 12),
        LoadPlan::CopyTo { vertex_byte_start: 256, index_byte_start: 144 }
    );
    assert_eq!(mem.handles(7), Some(LoadedModelHandles { vertex_offset: 0, index_offset: 0 }));
    assert_eq!(mem.handles(9), Some(LoadedModelHandles { vertex_offset: 8, index_offset: 36 }));
    assert_eq!(mem.handles(1), None);
    assert!(mem.is_loaded(9));
}

#[test]
fn invalidated_meshes_load_again_further_on() {
    let mut mem = ModelMemory::new();
    mem.load_model(7, 8, 36, 256, 144);
    mem.invalidate_model_memory();
    assert!(!mem.is_loaded(7));
    assert_eq!(
        mem.load_model(7, 8, 36, 256, 144),
        LoadPlan::CopyTo { vertex_byte_start: 256, index_byte_start: 144 }
    );
    assert_eq!(mem.handles(7), Some(LoadedModelHandles { vertex_offset: 8, index_offset: 36 }));
}

#[test]
fn draws_follow_each_other_in_the_instance_buffer() {
    let mut mem = ModelMemory::new();
    mem.load_model(1, 3, 3, 96, 12);
    mem.load_model(2, 8, 36, 256, 144);
    let draws = vec![
        DrawRequest { mesh_id: 2, index_count: 36, instance_count: 5 },
        DrawRequest { mesh_id: 1, index_count: 3, instance_count: 2 },
        DrawRequest { mesh_id: 2, index_count: 36, instance_count: 1 },
    ];
    let calls = mem.plan_draws(&draws);
    assert_eq!(
        calls,
        vec![
            DrawCall { index_count: 36, instance_count: 5, first_index: 3, vertex_offset: 3, first_instance: 0 },
            DrawCall { index_count: 3, instance_count: 2, first_index: 0, vertex_offset: 0, first_instance: 5 },
            DrawCall { index_count: 36, instance_count: 1, first_index: 3, vertex_offset: 3, first_instance: 7 },
        ]
    );
}

use totality::render::texture_layout::{plan_staging, row_pitch, stage_rows, StagingPlan};

#[test]
fn rows_are_padded_to_the_alignment() {
    assert_eq!(row_pitch(3, 256), 256);
    assert_eq!(row_pitch(64, 256), 256);
    assert_eq!(row_pitch(65, 256), 512);
    assert_eq!(row_pitch(5, 1), 20);
    assert_eq!(
        plan_staging(65, 3, 256),
        StagingPlan { row_size: 260, row_pitch: 512, required_bytes: 1536, buffer_width: 128 }
    );
}

#[test]
fn staging_copies_rows_and_keeps_padding() {
    let pixels: Vec<u8> = (1..=8).collect();
    let mut target = vec![0xaau8; 12];
    stage_rows(&mut target, &pixels, 4, 6, 2);
    assert_eq!(target, vec![1, 2, 3, 4, 0xaa, 0xaa, 5, 6, 7, 8, 0xaa, 0xaa]);
}

use totality::render::memory_type::find_memory_type;

#[test]
fn memory_types_by_mask_and_property() {
    // Types 1 and 3 are allowed; only types 2 and 3 have the property.
    assert_eq!(find_memory_type(0b1010, &vec![true, false, true, true]), Some(3));
    assert_eq!(find_memory_type(0b0001, &vec![true, true]), Some(0));
    assert_eq!(find_memory_type(0b0100, &vec![true, true, false]), None);
    assert_eq!(find_memory_type(u64::MAX, &vec![]), None);
}

use totality::events::button::{C as Button, Key, Side};
use totality::render::controls::{is_exit_key, world_event};
use totality::render::model_memory::MeshExtent;

#[test]
fn demo_keys_make_world_events() {
    assert_eq!(world_event(Button::A('w'), true), Some(WorldEvent::SetMoveForward(true)));
    assert_eq!(world_event(Button::A('q'), false), Some(WorldEvent::SetRollRight(false)));
    assert_eq!(world_event(Button::A(' '), true), Some(WorldEvent::SetMoveUp(true)));
    assert_eq!(world_event(Button::S(Key::Ctrl(Side::L)), true), Some(WorldEvent::SetMoveDown(true)));
    assert_eq!(world_event(Button::S(Key::Ctrl(Side::R)), true), None);
    assert_eq!(world_event(Button::S(Key::Tab), true), Some(WorldEvent::ToggleWireFrame(true)));
    assert_eq!(world_event(Button::A('n'), true), Some(WorldEvent::ShiftBackground(true)));
    assert_eq!(world_event(Button::A('x'), true), None);
    assert!(is_exit_key(Button::S(Key::Esc)));
    assert!(!is_exit_key(Button::A('w')));
}

#[test]
fn a_frame_loads_each_mesh_once() {
    let mut mem = ModelMemory::new();
    let tri = MeshExtent { mesh_id: 1, vertex_count: 3, index_count: 3, vertex_bytes: 96, index_bytes: 12 };
    let cube = MeshExtent { mesh_id: 2, vertex_count: 8, index_count: 36, vertex_bytes: 256, index_bytes: 144 };
    let plans = mem.load_models(&vec![tri, tri, cube]);
    assert_eq!(
        plans,
        vec![
            LoadPlan::CopyTo { vertex_byte_start: 0, index_byte_start: 0 },
            LoadPlan::AlreadyLoaded,
            LoadPlan::CopyTo { vertex_byte_start: 96, index_byte_start: 12 },
        ]
    );
    assert_eq!(mem.handles(2), Some(LoadedModelHandles { vertex_offset: 3, index_offset: 3 }));
}
