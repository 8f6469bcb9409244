use sprite_prefab::prefab::{
    PrefabError, SpriteRenderPrefab, SpriteScenePrefab, SpriteSheetLoadedSet, SpriteSheetPrefab,
    SpriteSheetReference,
};
use sprite_prefab::sprite::{
    Sprite, SpriteGrid, SpriteList, SpritePosition, SpriteRender, Sprites,
};

type Handle = u32;
type Texture = &'static str;

fn add_sheet(loaded: &mut SpriteSheetLoadedSet<Handle>, handle: Handle) -> (SpriteSheetReference, Handle) {
    let index = loaded.0.len();
    loaded.0.push((None, handle));
    (SpriteSheetReference::Index(index), handle)
}

fn name(text: &str) -> Option<String> {
    Some(text.to_string())
}

fn by_name(text: &str) -> SpriteSheetReference {
    SpriteSheetReference::Name(text.to_string())
}

fn strip_of_three() -> Sprites {
    Sprites::List(SpriteList {
        texture_width: 3,
        texture_height: 1,
        sprites: vec![
            SpritePosition { x: 0, y: 0, width: 1, height: 1, offsets: None },
            SpritePosition { x: 1, y: 0, width: 1, height: 1, offsets: None },
            SpritePosition { x: 2, y: 0, width: 1, height: 1, offsets: None },
        ],
    })
}

#[test]
fn sprite_sheet_prefab() {
    let texture: Texture = "texture";
    let mut prefab: SpriteSheetPrefab<Texture, Handle> = SpriteSheetPrefab::Sheet {
        sprites: vec![strip_of_three()],
        texture,
        name: None,
    };
    let sprites = prefab.build_sprites().unwrap();
    let registered: Handle = sprites.len() as Handle + 14;
    prefab.load_sub_assets(registered);
    let h = match &prefab {
        SpriteSheetPrefab::Handle(h) => h.clone(),
        _ => {
            assert!(false);
            return;
        }
    };
    let handle = prefab.add_to_entity();
    assert_eq!(h, handle);
}

#[test]
fn sprite_render_prefab() {
    let mut loaded = SpriteSheetLoadedSet::default();
    let (sheet, handle) = add_sheet(&mut loaded, 23);
    let mut prefab = SpriteRenderPrefab { sheet: Some(sheet), sprite_number: 0, handle: None };
    prefab.load_sub_assets(&loaded).unwrap();
    let render = prefab.add_to_entity().ok();
    assert!(render.is_some());
    let render = render.unwrap();
    assert_eq!(0, render.sprite_number);
    assert_eq!(handle, render.sprite_sheet);
}

#[test]
fn sheet_builds_the_sprites_of_all_its_blocks_in_order() {
    let grid = SpriteGrid {
        texture_width: 4,
        texture_height: 4,
        columns: 2,
        rows: Some(2),
        ..Default::default()
    };
    let prefab: SpriteSheetPrefab<Texture, Handle> = SpriteSheetPrefab::Sheet {
        texture: "texture",
        sprites: vec![strip_of_three(), Sprites::Grid(grid), strip_of_three()],
        name: name("hero"),
    };
    assert!(prefab.is_buildable());
    let sprites = prefab.build_sprites().unwrap();
    assert_eq!(10, sprites.len());
    let mut expected: Vec<Sprite> = Vec::new();
    expected.extend(strip_of_three().build_sprites());
    expected.extend(grid.build_sprites());
    expected.extend(strip_of_three().build_sprites());
    assert_eq!(expected, sprites);
    assert_eq!(Sprite::from_pixel_values(3, 1, 1, 1, 2, 0, [0, 0]), sprites[2]);
    assert_eq!(Sprite::from_pixel_values(4, 4, 2, 2, 2, 0, [0, 0]), sprites[4]);
    assert_eq!(Sprite::from_pixel_values(3, 1, 1, 1, 0, 0, [0, 0]), sprites[7]);
}

#[test]
fn sheet_without_blocks_builds_no_sprite() {
    let prefab: SpriteSheetPrefab<Texture, Handle> =
        SpriteSheetPrefab::Sheet { texture: "texture", sprites: vec![], name: None };
    assert!(prefab.is_buildable());
    assert_eq!(Some(Vec::new()), prefab.build_sprites());
}

#[test]
fn sheet_with_a_degenerate_grid_is_not_buildable() {
    let prefab: SpriteSheetPrefab<Texture, Handle> = SpriteSheetPrefab::Sheet {
        texture: "texture",
        sprites: vec![strip_of_three(), Sprites::Grid(SpriteGrid::default())],
        name: None,
    };
    assert!(!prefab.is_buildable());
}

#[test]
fn loaded_sheet_has_nothing_to_build() {
    let prefab: SpriteSheetPrefab<Texture, Handle> = SpriteSheetPrefab::Handle((name("hero"), 5));
    assert!(prefab.is_buildable());
    assert_eq!(None, prefab.build_sprites());
}

#[test]
fn sheet_turns_into_its_handle_once() {
    let mut prefab: SpriteSheetPrefab<Texture, Handle> = SpriteSheetPrefab::Sheet {
        texture: "texture",
        sprites: vec![strip_of_three()],
        name: name("hero"),
    };
    assert!(prefab.load_sub_assets(5));
    assert!(matches!(&prefab, SpriteSheetPrefab::Handle((Some(n), 5)) if n == "hero"));
    assert!(!prefab.load_sub_assets(6));
    assert!(matches!(&prefab, SpriteSheetPrefab::Handle((Some(n), 5)) if n == "hero"));
    assert_eq!((name("hero"), 5), prefab.add_to_entity());
}

#[test]
fn lookup_by_index() {
    let loaded: SpriteSheetLoadedSet<Handle> =
        SpriteSheetLoadedSet(vec![(None, 10), (name("a"), 11), (None, 12)]);
    assert_eq!(Some(&10), loaded.get(&SpriteSheetReference::Index(0)));
    assert_eq!(Some(&11), loaded.get(&SpriteSheetReference::Index(1)));
    assert_eq!(Some(&12), loaded.get(&SpriteSheetReference::Index(2)));
    assert_eq!(None, loaded.get(&SpriteSheetReference::Index(3)));
    assert_eq!(None, loaded.get(&SpriteSheetReference::Index(usize::MAX)));
}

#[test]
fn lookup_by_name_takes_the_first_match() {
    let loaded: SpriteSheetLoadedSet<Handle> = SpriteSheetLoadedSet(vec![
        (None, 10),
        (name("b"), 11),
        (name("a"), 12),
        (name("b"), 13),
        (name(""), 14),
    ]);
    assert_eq!(Some(&11), loaded.get(&by_name("b")));
    assert_eq!(Some(&12), loaded.get(&by_name("a")));
    assert_eq!(Some(&14), loaded.get(&by_name("")));
    assert_eq!(None, loaded.get(&by_name("c")));
    assert_eq!(None, loaded.get(&by_name("B")));
}

#[test]
fn lookup_in_an_empty_set() {
    let loaded: SpriteSheetLoadedSet<Handle> = SpriteSheetLoadedSet::default();
    assert!(loaded.0.is_empty());
    assert_eq!(None, loaded.get(&SpriteSheetReference::Index(0)));
    assert_eq!(None, loaded.get(&by_name("a")));
}

#[test]
fn render_resolves_by_name_and_attaches() {
    let loaded: SpriteSheetLoadedSet<Handle> =
        SpriteSheetLoadedSet(vec![(name("a"), 10), (name("b"), 11)]);
    let mut prefab = SpriteRenderPrefab { sheet: Some(by_name("b")), sprite_number: 4, handle: None };
    assert_eq!(Ok(false), prefab.load_sub_assets(&loaded));
    assert_eq!(Some(11), prefab.handle);
    assert_eq!(Some(by_name("b")), prefab.sheet);
    assert_eq!(4, prefab.sprite_number);
    assert_eq!(Ok(SpriteRender { sprite_sheet: 11, sprite_number: 4 }), prefab.add_to_entity());
}

#[test]
fn attach_before_load_is_not_resolved() {
    let prefab: SpriteRenderPrefab<Handle> =
        SpriteRenderPrefab { sheet: Some(by_name("a")), sprite_number: 3, handle: None };
    assert_eq!(
        Err(PrefabError::NotResolved { sheet: Some(by_name("a")), sprite_number: 3 }),
        prefab.add_to_entity()
    );
    let fresh: SpriteRenderPrefab<Handle> = SpriteRenderPrefab::default();
    assert_eq!(None, fresh.sheet);
    assert_eq!(0, fresh.sprite_number);
    assert_eq!(None, fresh.handle);
    assert_eq!(
        Err(PrefabError::NotResolved { sheet: None, sprite_number: 0 }),
        fresh.add_to_entity()
    );
}

#[test]
fn load_of_a_missing_reference_changes_nothing() {
    let loaded: SpriteSheetLoadedSet<Handle> = SpriteSheetLoadedSet(vec![(name("a"), 10)]);
    let mut prefab = SpriteRenderPrefab { sheet: Some(by_name("z")), sprite_number: 2, handle: None };
    assert_eq!(
        Err(PrefabError::ReferenceNotFound { reference: by_name("z") }),
        prefab.load_sub_assets(&loaded)
    );
    assert_eq!(Some(by_name("z")), prefab.sheet);
    assert_eq!(2, prefab.sprite_number);
    assert_eq!(None, prefab.handle);

    let mut resolved =
        SpriteRenderPrefab { sheet: Some(SpriteSheetReference::Index(1)), sprite_number: 2, handle: Some(99) };
    assert_eq!(
        Err(PrefabError::ReferenceNotFound { reference: SpriteSheetReference::Index(1) }),
        resolved.load_sub_assets(&loaded)
    );
    assert_eq!(Some(99), resolved.handle);
    assert_eq!(
        Err(PrefabError::NotResolved { sheet: Some(by_name("z")), sprite_number: 2 }),
        prefab.add_to_entity()
    );
}

#[test]
fn reference_clones_equal() {
    let index = SpriteSheetReference::Index(7);
    let named = by_name("sheet");
    assert_eq!(index, index.clone());
    assert_eq!(named, named.clone());
    assert_ne!(index, named);
}

#[test]
fn scene_loads_its_sheet_then_its_render() {
    let mut loaded: SpriteSheetLoadedSet<Handle> = SpriteSheetLoadedSet(vec![(None, 1)]);
    let mut scene: SpriteScenePrefab<Texture, Handle, i64> = SpriteScenePrefab {
        sheet: Some(SpriteSheetPrefab::Sheet {
            texture: "texture",
            sprites: vec![strip_of_three()],
            name: name("hero"),
        }),
        render: Some(SpriteRenderPrefab { sheet: Some(by_name("hero")), sprite_number: 2, handle: None }),
        transform: Some(-8),
    };
    assert_eq!(Ok(true), scene.load_sub_assets(&mut loaded, Some(40)));
    assert_eq!(vec![(None, 1), (name("hero"), 40)], loaded.0);
    assert!(matches!(&scene.sheet, Some(SpriteSheetPrefab::Handle((Some(n), 40))) if n == "hero"));
    assert_eq!(Some(40), scene.render.as_ref().unwrap().handle);
    assert_eq!(Some(-8), scene.transform);
    assert_eq!(
        Ok((Some(SpriteRender { sprite_sheet: 40, sprite_number: 2 }), Some(&-8))),
        scene.add_to_entity()
    );

    assert_eq!(Ok(false), scene.load_sub_assets(&mut loaded, None));
    assert_eq!(vec![(None, 1), (name("hero"), 40), (name("hero"), 40)], loaded.0);
    assert_eq!(Ok(false), scene.load_sub_assets(&mut loaded, Some(41)));
    assert_eq!(4, loaded.0.len());
    assert_eq!((name("hero"), 40), loaded.0[3]);
}

#[test]
fn scene_render_can_refer_to_the_sheet_by_its_index() {
    let mut loaded: SpriteSheetLoadedSet<Handle> = SpriteSheetLoadedSet(vec![(None, 1), (None, 2)]);
    let mut scene: SpriteScenePrefab<Texture, Handle, ()> = SpriteScenePrefab {
        sheet: Some(SpriteSheetPrefab::Sheet { texture: "texture", sprites: vec![], name: None }),
        render: Some(SpriteRenderPrefab {
            sheet: Some(SpriteSheetReference::Index(2)),
            sprite_number: 0,
            handle: None,
        }),
        transform: None,
    };
    assert_eq!(Ok(true), scene.load_sub_assets(&mut loaded, Some(3)));
    assert_eq!(
        Ok((Some(SpriteRender { sprite_sheet: 3, sprite_number: 0 }), None)),
        scene.add_to_entity()
    );
}

#[test]
fn scene_reports_the_error_of_its_render_after_loading_its_sheet() {
    let mut loaded: SpriteSheetLoadedSet<Handle> = SpriteSheetLoadedSet::default();
    let mut scene: SpriteScenePrefab<Texture, Handle, ()> = SpriteScenePrefab {
        sheet: Some(SpriteSheetPrefab::Sheet { texture: "texture", sprites: vec![], name: None }),
        render: Some(SpriteRenderPrefab {
            sheet: Some(SpriteSheetReference::Index(1)),
            sprite_number: 0,
            handle: None,
        }),
        transform: Some(()),
    };
    assert_eq!(
        Err(PrefabError::ReferenceNotFound { reference: SpriteSheetReference::Index(1) }),
        scene.load_sub_assets(&mut loaded, Some(3))
    );
    assert_eq!(vec![(None, 3)], loaded.0);
    assert!(matches!(&scene.sheet, Some(SpriteSheetPrefab::Handle((None, 3)))));
    assert_eq!(None, scene.render.as_ref().unwrap().handle);
    assert_eq!(
        Err(PrefabError::NotResolved { sheet: Some(SpriteSheetReference::Index(1)), sprite_number: 0 }),
        scene.add_to_entity()
    );
}

#[test]
fn scene_with_nothing_in_it() {
    let mut loaded: SpriteSheetLoadedSet<Handle> = SpriteSheetLoadedSet(vec![(None, 1)]);
    let mut scene: SpriteScenePrefab<Texture, Handle, u8> = SpriteScenePrefab::default();
    assert!(scene.sheet.is_none());
    assert!(scene.render.is_none());
    assert!(scene.transform.is_none());
    assert_eq!(Ok(false), scene.load_sub_assets(&mut loaded, None));
    assert_eq!(Ok(false), scene.load_sub_assets(&mut loaded, Some(2)));
    assert_eq!(vec![(None, 1)], loaded.0);
    assert_eq!(Ok((None, None)), scene.add_to_entity());
}

#[test]
fn scene_with_only_a_transform() {
    let scene: SpriteScenePrefab<Texture, Handle, u8> =
        SpriteScenePrefab { sheet: None, render: None, transform: Some(9) };
    assert_eq!(Ok((None, Some(&9))), scene.add_to_entity());
}
