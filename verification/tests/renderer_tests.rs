use ttri::model::cmodel::{Face, Model};
use ttri::renderer::{Acquired, Renderer, FALLBACK_TEX};
use ttri::rmod::{DrawCall, FrameError, FramePlan, TexturePlan};
use ttri::texman::TexError;

fn quad(layer: i32) -> Model {
    let one = 1.0f32.to_bits();
    Model {
        vs: vec![[0, 0, 0, one], [one, 0, 0, one], [0, one, 0, one], [one, one, 0, one]],
        uvs: vec![[0, 0], [one, 0], [0, one], [one, one]],
        faces: vec![
            Face { vid: [0, 1, 2], uvid: [0, 1, 2], layer, color: [0; 4] },
            Face { vid: [3, 1, 2], uvid: [3, 1, 2], layer, color: [0; 4] },
        ],
    }
}

#[test]
fn new_renderer_holds_the_fallback_texture() {
    let r = Renderer::new("blank");
    assert_eq!(FALLBACK_TEX, -2);
    assert_eq!(r.rmod.texman.mapper().get(&-2), Some(&0));
    assert_eq!(r.rmod.texman.mapper().len(), 1);
    assert_eq!(r.rmod.texman.compile_set().unwrap().1, &vec!["blank"]);
    assert!(r.rmod.texman.get_dirty());
    assert_eq!(r.rmod.modelman.len(), 0);
}

#[test]
fn damage_is_reported_once() {
    let mut r = Renderer::new("blank");
    assert!(!r.take_damage());
    r.damage();
    r.damage();
    assert!(r.take_damage());
    assert!(!r.take_damage());
}

#[test]
fn out_of_date_swapchain_marks_damage_and_skips() {
    let mut r = Renderer::new("blank");
    let (_h, _) = r.insert_model(&quad(-1));
    assert_eq!(r.render(Acquired::OutOfDate), Ok(None));
    // nothing was reconciled
    assert!(r.rmod.texman.get_dirty());
    assert_eq!(r.rmod.modelman.vertex_buffer().write_count(), 0);
    assert!(r.take_damage());
    let plan = r.render(Acquired::Image).unwrap().unwrap();
    assert_eq!(plan.textures, Some(TexturePlan { count: 1, resize: false }));
    assert_eq!(plan.draw, Some(DrawCall { vertex_count: 6, instance_count: 1 }));
    assert!(!r.take_damage());
}

#[test]
fn models_are_compiled_against_the_current_mapping() {
    let mut r = Renderer::new("blank");
    r.upload_tex("stone", 0);
    r.upload_tex("grass", 7);
    let (h, skipped) = r.insert_model(&quad(7));
    assert_eq!(skipped, 0);
    assert_eq!(h.borrow(&r.rmod.modelman).unwrap().vertices[0].tex_layer, 2);
    let (bad, skipped) = r.insert_model(&quad(8));
    assert_eq!(skipped, 2);
    assert!(bad.borrow(&r.rmod.modelman).unwrap().vertices.is_empty());
    let plan = r.render(Acquired::Image).unwrap().unwrap();
    assert_eq!(plan.textures, Some(TexturePlan { count: 3, resize: true }));
    assert_eq!(plan.draw, Some(DrawCall { vertex_count: 6, instance_count: 1 }));
}

#[test]
fn reupload_of_a_texture_in_use_strands_the_model() {
    let mut r = Renderer::new("blank");
    r.upload_tex("v1", 5);
    let (_h, _) = r.insert_model(&quad(5));
    let _ = r.render(Acquired::Image).unwrap();
    r.upload_tex("v2", 5);
    assert_eq!(r.render(Acquired::Image), Err(FrameError::UnmappedLayer));
    assert_eq!(r.rmod.texman.compile_set().unwrap().1, &vec!["blank", "v2"]);
}

#[test]
fn removing_the_last_texture_skips_the_frame() {
    let mut r = Renderer::new("blank");
    let (_h, _) = r.insert_model(&quad(-1));
    assert_eq!(r.remove_tex(FALLBACK_TEX), Ok(()));
    assert_eq!(r.remove_tex(FALLBACK_TEX), Err(TexError::NotFound));
    assert_eq!(r.render(Acquired::Image), Ok(Some(FramePlan { textures: None, draw: None })));
    assert_eq!(r.render(Acquired::Image), Ok(Some(FramePlan { textures: None, draw: None })));
}
