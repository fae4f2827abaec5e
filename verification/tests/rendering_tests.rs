use gamezap::camera::{camera_moves, CameraKey, CameraMove};
use gamezap::compute::{
    array_read_outcome, compute_asset_plan, compute_layout_entries, replace_pipeline_assets,
    ComputeAssetPlan, ComputeBindingKind, ComputeData, ComputeError, ComputeLayoutEntry,
    ComputeOutput, ComputePipelineType, ComputeTextureData,
};
use gamezap::ecs::material::MaterialAttachmentKind;
use gamezap::engine_management::rendering_management::{
    bind_group_indices, preferred_format_index, visible_text_buffers,
};
use gamezap::materials::{
    material_bind_group_bindings, material_layout_bindings, material_pipeline_type, Material,
    MaterialManager,
};
use gamezap::pipeline::{
    bind_group_layout_order, shader_load_error, texture_layout_bindings, BindGroupSlot,
    LayoutBinding, PipelineError, PipelineType, TextureBindingKind,
};
use gamezap::pipeline_manager::pipeline_needed;
use gamezap::renderer::resized_surface;
use gamezap::{engine_action, EngineAction, EngineEvent};

fn tex(binding: u32) -> LayoutBinding {
    LayoutBinding { binding, kind: TextureBindingKind::Texture }
}

fn sampler(binding: u32) -> LayoutBinding {
    LayoutBinding { binding, kind: TextureBindingKind::Sampler }
}

#[test]
fn texture_layout_has_texture_and_sampler_per_texture() {
    assert_eq!(texture_layout_bindings(0), Vec::new());
    assert_eq!(texture_layout_bindings(2), vec![tex(0), sampler(1), tex(2), sampler(3)]);
}

#[test]
fn bind_group_order_puts_uniform_last() {
    assert_eq!(bind_group_layout_order(false), vec![BindGroupSlot::Textures, BindGroupSlot::Camera]);
    assert_eq!(
        bind_group_layout_order(true),
        vec![BindGroupSlot::Textures, BindGroupSlot::Camera, BindGroupSlot::UniformBuffer]
    );
}

#[test]
fn shader_load_error_names_the_path() {
    match shader_load_error("shaders/v.wgsl") {
        PipelineError::PathNotFound(message) => {
            assert_eq!(message, "Failed to read shader file at path: shaders/v.wgsl")
        }
    }
}

#[test]
fn material_pipeline_types() {
    assert_eq!(material_pipeline_type(false, false), PipelineType::Plain);
    assert_eq!(material_pipeline_type(false, true), PipelineType::Plain);
    assert_eq!(material_pipeline_type(true, false), PipelineType::DiffuseTexture);
    assert_eq!(material_pipeline_type(true, true), PipelineType::NormalDiffuseTexture);
}

#[test]
fn material_layouts_and_bind_groups() {
    assert_eq!(material_layout_bindings(false, false), Vec::new());
    assert_eq!(material_layout_bindings(false, true), Vec::new());
    assert_eq!(material_layout_bindings(true, false), vec![tex(0), sampler(1)]);
    assert_eq!(material_layout_bindings(true, true), vec![tex(0), sampler(1), tex(2), sampler(3)]);
    assert_eq!(material_bind_group_bindings(false, false), Vec::new());
    assert_eq!(material_bind_group_bindings(false, true), vec![tex(2), sampler(3)]);
    assert_eq!(material_bind_group_bindings(true, false), vec![tex(0), sampler(1)]);
    assert_eq!(
        material_bind_group_bindings(true, true),
        vec![tex(0), sampler(1), tex(2), sampler(3)]
    );
}

#[test]
fn material_new_derives_the_pipeline() {
    let m: Material<u8, ()> = Material::new("brick", Some(1), Some(2), (), 4);
    assert_eq!(m.name, "brick");
    assert_eq!(m.pipeline_type, PipelineType::NormalDiffuseTexture);
    assert_eq!(m.material_index, 4);
    let plain: Material<u8, ()> = Material::new("flat", None, Some(2), (), 0);
    assert_eq!(plain.pipeline_type, PipelineType::Plain);
}

#[test]
fn material_manager_files_and_numbers_materials() {
    let mut manager: MaterialManager<u8, ()> = MaterialManager::init();
    let a = manager.new_material("a", None, None, ());
    let b = manager.new_material("b", Some(1), None, ());
    let c = manager.new_material("c", Some(1), Some(2), ());
    assert_eq!((a.material_index, b.material_index, c.material_index), (0, 0, 0));
    manager.add_materials(vec![a, b, c]);
    let d = manager.new_material("d", Some(1), None, ());
    let e = manager.new_material("e", None, Some(1), ());
    assert_eq!(d.material_index, 1);
    assert_eq!(e.material_index, 1);
    manager.add_materials(vec![d, e]);
    let names = |v: &Vec<Material<u8, ()>>| v.iter().map(|m| m.name.clone()).collect::<Vec<_>>();
    assert_eq!(names(&manager.plain_materials), vec!["a", "e"]);
    assert_eq!(names(&manager.diffuse_texture_materials), vec!["b", "d"]);
    assert_eq!(names(&manager.diffuse_normal_texture_materials), vec!["c"]);
    assert_eq!(manager.next_material_index(true, true), 1);
    assert_eq!(manager.next_material_index(false, false), 2);
}

#[test]
fn compute_layout_numbers_inputs_then_outputs() {
    let data = [1u32, 2, 3];
    let pipeline_type = ComputePipelineType {
        input_data: vec![
            ComputeData::ArrayData(&data[..]),
            ComputeData::TextureData((ComputeTextureData::Dimensions((4, 4)), true)),
            ComputeData::TextureData((ComputeTextureData::Path("t.png".to_string()), false)),
        ],
        output_data_type: vec![ComputeOutput::Array(64), ComputeOutput::Texture((8, 2))],
    };
    let entries = compute_layout_entries(&pipeline_type);
    assert_eq!(
        entries,
        vec![
            ComputeLayoutEntry { binding: 0, kind: ComputeBindingKind::StorageBuffer },
            ComputeLayoutEntry { binding: 1, kind: ComputeBindingKind::ReadWriteStorageTexture },
            ComputeLayoutEntry { binding: 2, kind: ComputeBindingKind::SampledTexture },
            ComputeLayoutEntry { binding: 3, kind: ComputeBindingKind::StorageBuffer },
            ComputeLayoutEntry { binding: 4, kind: ComputeBindingKind::ReadWriteStorageTexture },
        ]
    );
    let plan = compute_asset_plan(&pipeline_type);
    assert_eq!(plan.len(), 5);
    assert!(matches!(plan[0], ComputeAssetPlan::ArrayBuffer { index: 0 }));
    assert!(matches!(
        plan[1],
        ComputeAssetPlan::BlankInputTexture { index: 1, width: 4, height: 4 }
    ));
    assert!(matches!(&plan[2], ComputeAssetPlan::TextureFromFile { path } if path == "t.png"));
    assert!(matches!(plan[3], ComputeAssetPlan::OutputBuffer { index: 0, size: 64 }));
    assert!(matches!(
        plan[4],
        ComputeAssetPlan::BlankOutputTexture { index: 1, width: 8, height: 2 }
    ));
}

#[test]
fn replacing_pipeline_assets_in_order() {
    let mut assets = vec!['a', 'b', 'c'];
    replace_pipeline_assets(&mut assets, vec![('x', 2), ('y', 0), ('z', 2)]);
    assert_eq!(assets, vec!['y', 'b', 'z']);
    replace_pipeline_assets(&mut assets, Vec::new());
    assert_eq!(assets, vec!['y', 'b', 'z']);
}

#[test]
fn array_read_outcomes() {
    assert_eq!(array_read_outcome(false, true, true), Err(ComputeError::AssetIsNotBuffer));
    assert_eq!(array_read_outcome(true, false, true), Err(ComputeError::BufferMapError));
    assert_eq!(array_read_outcome(true, true, false), Err(ComputeError::InvalidCast));
    assert_eq!(array_read_outcome(true, true, true), Ok(()));
}

#[test]
fn camera_moves_follow_the_fixed_key_order() {
    assert_eq!(camera_moves(&vec![]), vec![]);
    assert_eq!(
        camera_moves(&vec![CameraKey::LCtrl, CameraKey::A, CameraKey::W, CameraKey::Other]),
        vec![CameraMove::Forward, CameraMove::Left, CameraMove::Down]
    );
    assert_eq!(
        camera_moves(&vec![
            CameraKey::Space,
            CameraKey::D,
            CameraKey::S,
            CameraKey::W,
            CameraKey::A,
            CameraKey::LCtrl,
            CameraKey::W,
        ]),
        vec![
            CameraMove::Forward,
            CameraMove::Backward,
            CameraMove::Right,
            CameraMove::Left,
            CameraMove::Up,
            CameraMove::Down,
        ]
    );
}

#[test]
fn preferred_format_is_first_srgb_or_first() {
    assert_eq!(preferred_format_index(&vec![false, true, true]), 1);
    assert_eq!(preferred_format_index(&vec![true, false]), 0);
    assert_eq!(preferred_format_index(&vec![false, false, false]), 0);
}

#[test]
fn bind_group_indices_count_slots() {
    assert_eq!(bind_group_indices(&vec![]), Vec::<u32>::new());
    assert_eq!(bind_group_indices(&vec![
        MaterialAttachmentKind::Texture,
        MaterialAttachmentKind::Buffer,
        MaterialAttachmentKind::Texture,
        MaterialAttachmentKind::Buffer,
    ]), vec![0, 2, 3, 5]);
}

#[test]
fn visible_text_buffers_of_enabled_components() {
    assert_eq!(visible_text_buffers(&vec![3, 5, 3, 7], &vec![3, 7]), vec![0, 2, 3]);
    assert_eq!(visible_text_buffers(&vec![3, 5], &vec![]), Vec::<usize>::new());
}

#[test]
fn resize_ignores_degenerate_sizes() {
    assert_eq!(resized_surface((800, 600), (1024, 768)), (1024, 768));
    assert_eq!(resized_surface((800, 600), (0, 768)), (800, 600));
    assert_eq!(resized_surface((800, 600), (1024, 0)), (800, 600));
}

#[test]
fn pipelines_are_built_once_for_needed_kinds() {
    assert!(pipeline_needed(1, false));
    assert!(!pipeline_needed(0, false));
    assert!(!pipeline_needed(3, true));
}

#[test]
fn main_loop_answers() {
    assert_eq!(
        engine_action(EngineEvent::Resized { width: 3, height: 4 }),
        EngineAction::Resize { width: 3, height: 4 }
    );
    assert_eq!(engine_action(EngineEvent::CloseRequested), EngineAction::Exit);
    assert_eq!(engine_action(EngineEvent::AboutToWait), EngineAction::Render);
    assert_eq!(engine_action(EngineEvent::Other), EngineAction::Nothing);
}
