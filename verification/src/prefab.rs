//! Sprite sheets and sprite renders declared as data, and the two phases in
//! which they come to life: first every declaration is loaded, which turns a
//! sheet into a shared handle and looks up the sheet a render refers to; then
//! the renders are attached to their entities.
//!
//! The services that load textures, register sheets and store components are
//! not part of this module. A caller performs their work and hands the results
//! in: `H` is the handle it shares a sheet by, `T` its declaration of a texture
//! and `X` its transform.

use crate::sprite::{Sprite, SpriteRender, Sprites};
use vstd::prelude::*;

verus! {

/// Names a loaded sprite sheet.
#[derive(Debug, PartialEq, Eq)]
pub enum SpriteSheetReference {
    /// The place of the sheet among those loaded so far, counted from zero.
    Index(usize),
    /// The name of the sheet; of several sheets of one name the first is meant.
    Name(String),
}

impl Clone for SpriteSheetReference {
    fn clone(&self) -> (copy: Self)
        ensures
            copy == *self,
    {
        match self {
            SpriteSheetReference::Index(index) => SpriteSheetReference::Index(*index),
            SpriteSheetReference::Name(name) => SpriteSheetReference::Name(name.clone()),
        }
    }
}

/// Why a sprite render could not be loaded or attached.
#[derive(Debug, PartialEq, Eq)]
pub enum PrefabError {
    /// No loaded sheet goes by the reference.
    ReferenceNotFound {
        /// The reference that was looked up.
        reference: SpriteSheetReference,
    },
    /// The render was to be attached before its sheet was looked up.
    NotResolved {
        /// The sheet that the render refers to.
        sheet: Option<SpriteSheetReference>,
        /// The sprite number of the render.
        sprite_number: usize,
    },
}

/// Whether a loaded sheet goes by `name`.
pub open spec fn named<H>(entry: (Option<String>, H), name: Seq<char>) -> bool {
    entry.0 matches Some(entry_name) && entry_name@ == name
}

/// The place of the first sheet that goes by `name`.
pub open spec fn first_named<H>(entries: Seq<(Option<String>, H)>, name: Seq<char>) -> Option<int>
    decreases entries.len(),
{
    if entries.len() == 0 {
        None
    } else {
        match first_named(entries.drop_last(), name) {
            Some(place) => Some(place),
            None => if named(entries.last(), name) {
                Some(entries.len() - 1)
            } else {
                None
            },
        }
    }
}

/// [`first_named`] finds a sheet of the name before which there is no other,
/// and finds none only where there is none.
pub proof fn lemma_first_named<H>(entries: Seq<(Option<String>, H)>, name: Seq<char>)
    ensures
        match first_named(entries, name) {
            Some(place) => {
                &&& 0 <= place < entries.len()
                &&& named(entries[place], name)
                &&& forall|i: int| 0 <= i < place ==> !named(#[trigger] entries[i], name)
            },
            None => forall|i: int| 0 <= i < entries.len() ==> !named(#[trigger] entries[i], name),
        },
    decreases entries.len(),
{
    if entries.len() > 0 {
        let front = entries.drop_last();
        lemma_first_named(front, name);
        assert(forall|i: int| 0 <= i < front.len() ==> front[i] == entries[i]);
    }
}

/// The sheets loaded so far, each with its name if it has one, in the order in
/// which they were loaded.
#[derive(Debug)]
pub struct SpriteSheetLoadedSet<H>(pub Vec<(Option<String>, H)>);

impl<H> Default for SpriteSheetLoadedSet<H> {
    fn default() -> (set: Self)
        ensures
            set.0@ == Seq::<(Option<String>, H)>::empty(),
    {
        SpriteSheetLoadedSet(Vec::new())
    }
}

impl<H> SpriteSheetLoadedSet<H> {
    /// The place of the sheet that `reference` names, if there is one.
    pub open spec fn position(&self, reference: SpriteSheetReference) -> Option<int> {
        match reference {
            SpriteSheetReference::Index(index) => if index < self.0@.len() {
                Some(index as int)
            } else {
                None
            },
            SpriteSheetReference::Name(name) => first_named(self.0@, name@),
        }
    }

    /// Looks up the handle of the sheet that `reference` names.
    pub fn get(&self, reference: &SpriteSheetReference) -> (handle: Option<&H>)
        ensures
            match self.position(*reference) {
                Some(place) => handle == Some(&self.0@[place].1),
                None => handle is None,
            },
    {
        match reference {
            SpriteSheetReference::Index(index) => {
                if *index < self.0.len() {
                    Some(&self.0[*index].1)
                } else {
                    None
                }
            },
            SpriteSheetReference::Name(name) => {
                let mut i: usize = 0;
                while i < self.0.len()
                    invariant
                        *reference == SpriteSheetReference::Name(*name),
                        i <= self.0@.len(),
                        forall|k: int| 0 <= k < i ==> !named(#[trigger] self.0@[k], name@),
                    decreases self.0@.len() - i,
                {
                    let entry = &self.0[i];
                    let found = match &entry.0 {
                        Some(entry_name) => *entry_name == *name,
                        None => false,
                    };
                    assert(found == named(self.0@[i as int], name@));
                    if found {
                        proof {
                            lemma_first_named(self.0@, name@);
                        }
                        return Some(&entry.1);
                    }
                    i += 1;
                }
                proof {
                    lemma_first_named(self.0@, name@);
                }
                None
            },
        }
    }
}

/// The loaded sheets only grow, and a sheet that a reference names keeps
/// being the one it names: what was found before another sheet was loaded is
/// found at the same place after.
pub proof fn lemma_position_survives_loading<H>(
    before: SpriteSheetLoadedSet<H>,
    after: SpriteSheetLoadedSet<H>,
    reference: SpriteSheetReference,
)
    requires
        after.0@.len() == before.0@.len() + 1,
        after.0@.drop_last() == before.0@,
        before.position(reference) is Some,
    ensures
        after.position(reference) == before.position(reference),
{
}

/// `copy` came from `origin` by cloning it, at most twice.
pub open spec fn shares<H: Clone>(origin: H, copy: H) -> bool {
    exists|via: H| #[trigger] cloned(origin, via) && cloned(via, copy)
}

/// A sprite render declared as data: the sheet it refers to and the number of
/// one of its sprites. Loading looks the sheet up among the loaded ones and
/// keeps its handle; only then can the render be attached.
#[derive(Debug)]
pub struct SpriteRenderPrefab<H> {
    /// The sheet that the sprite is on.
    pub sheet: Option<SpriteSheetReference>,
    /// Number of the sprite on the sheet.
    pub sprite_number: usize,
    /// Handle of the sheet, which loading fills in.
    pub handle: Option<H>,
}

impl<H> Default for SpriteRenderPrefab<H> {
    fn default() -> (prefab: Self)
        ensures
            prefab.sheet is None,
            prefab.sprite_number == 0,
            prefab.handle is None,
    {
        SpriteRenderPrefab { sheet: None, sprite_number: 0, handle: None }
    }
}

impl<H: Clone> SpriteRenderPrefab<H> {
    /// How loading changes a render, and what it reports: where the reference
    /// names a loaded sheet, the render keeps a clone of its handle and there
    /// is no more to load; where it names none, the render stays as it was and
    /// the reference comes back as an error.
    pub open spec fn loaded_from(
        before: Self,
        after: Self,
        loaded: SpriteSheetLoadedSet<H>,
        result: Result<bool, PrefabError>,
    ) -> bool {
        before.sheet matches Some(reference) && match loaded.position(reference) {
            Some(place) => {
                &&& result == Ok::<bool, PrefabError>(false)
                &&& after.sheet == before.sheet
                &&& after.sprite_number == before.sprite_number
                &&& after.handle matches Some(handle) && cloned(loaded.0@[place].1, handle)
            },
            None => {
                &&& result == Err::<bool, PrefabError>(
                    PrefabError::ReferenceNotFound { reference },
                )
                &&& after == before
            },
        }
    }

    /// What attaching a render gives: a component of a clone of the handle and
    /// the render's sprite number where the render was loaded, else an error.
    pub open spec fn attached_from(
        prefab: Self,
        result: Result<SpriteRender<H>, PrefabError>,
    ) -> bool {
        match prefab.handle {
            Some(handle) => {
                &&& result matches Ok(render)
                &&& cloned(handle, render.sprite_sheet)
                &&& render.sprite_number == prefab.sprite_number
            },
            None => result == Err::<SpriteRender<H>, PrefabError>(
                PrefabError::NotResolved {
                    sheet: prefab.sheet,
                    sprite_number: prefab.sprite_number,
                },
            ),
        }
    }

    /// Looks the render's sheet up among the loaded ones and keeps a clone of
    /// its handle. A render has nothing of its own to load, so success is
    /// always `Ok(false)`.
    pub fn load_sub_assets(&mut self, loaded: &SpriteSheetLoadedSet<H>) -> (result: Result<
        bool,
        PrefabError,
    >)
        requires
            old(self).sheet is Some,
        ensures
            Self::loaded_from(*old(self), *final(self), *loaded, result),
    {
        match &self.sheet {
            Some(reference) => match loaded.get(reference) {
                Some(handle) => {
                    self.handle = Some(handle.clone());
                    Ok(false)
                },
                None => Err(PrefabError::ReferenceNotFound { reference: reference.clone() }),
            },
            None => unreached(),
        }
    }

    /// The component to insert for the entity of this render.
    pub fn add_to_entity(&self) -> (result: Result<SpriteRender<H>, PrefabError>)
        ensures
            Self::attached_from(*self, result),
    {
        match &self.handle {
            Some(handle) => Ok(
                SpriteRender { sprite_sheet: handle.clone(), sprite_number: self.sprite_number },
            ),
            None => {
                let sheet = match &self.sheet {
                    Some(reference) => Some(reference.clone()),
                    None => None,
                };
                Err(PrefabError::NotResolved { sheet, sprite_number: self.sprite_number })
            },
        }
    }

    /// Loading a render whose reference names a loaded sheet and then attaching
    /// it gives a component with the render's sprite number and a handle that
    /// was cloned from the one stored for that sheet. Where a clone of a handle
    /// equals the handle, the component holds the stored handle itself.
    pub proof fn lemma_load_then_attach(
        before: Self,
        after: Self,
        loaded: SpriteSheetLoadedSet<H>,
        loading: Result<bool, PrefabError>,
        attaching: Result<SpriteRender<H>, PrefabError>,
    )
        requires
            before.sheet matches Some(reference) && loaded.position(reference) is Some,
            Self::loaded_from(before, after, loaded, loading),
            Self::attached_from(after, attaching),
        ensures
            loading == Ok::<bool, PrefabError>(false),
            attaching matches Ok(render) && {
                let stored = loaded.0@[loaded.position(before.sheet->0)->0].1;
                &&& render.sprite_number == before.sprite_number
                &&& shares(stored, render.sprite_sheet)
                &&& (forall|a: H, b: H| #[trigger] cloned(a, b) ==> a == b) ==> render.sprite_sheet
                    == stored
            },
    {
        let stored = loaded.0@[loaded.position(before.sheet->0)->0].1;
        let kept = after.handle->0;
        assert(cloned(stored, kept));
    }

    /// A render that was never loaded cannot be attached: the attempt fails
    /// with [`PrefabError::NotResolved`], which names the render's reference
    /// and sprite number.
    pub proof fn lemma_attach_needs_load(
        prefab: Self,
        attaching: Result<SpriteRender<H>, PrefabError>,
    )
        requires
            prefab.handle is None,
            Self::attached_from(prefab, attaching),
        ensures
            attaching == Err::<SpriteRender<H>, PrefabError>(
                PrefabError::NotResolved {
                    sheet: prefab.sheet,
                    sprite_number: prefab.sprite_number,
                },
            ),
    {
    }

    /// Loading a render whose reference names no loaded sheet fails with
    /// [`PrefabError::ReferenceNotFound`] and leaves the render as it was.
    pub proof fn lemma_load_of_unknown_reference(
        before: Self,
        after: Self,
        loaded: SpriteSheetLoadedSet<H>,
        loading: Result<bool, PrefabError>,
    )
        requires
            before.sheet matches Some(reference) && loaded.position(reference) is None,
            Self::loaded_from(before, after, loaded, loading),
        ensures
            loading == Err::<bool, PrefabError>(
                PrefabError::ReferenceNotFound { reference: before.sheet->0 },
            ),
            after == before,
    {
    }
}

/// The sprites of several blocks one after another, in the order of the blocks.
pub open spec fn all_sprites(blocks: Seq<Sprites>) -> Seq<Sprite>
    decreases blocks.len(),
{
    if blocks.len() == 0 {
        Seq::empty()
    } else {
        all_sprites(blocks.drop_last()) + blocks.last().spec_sprites()
    }
}

/// Every block is valid.
pub open spec fn all_valid(blocks: Seq<Sprites>) -> bool {
    forall|i: int| 0 <= i < blocks.len() ==> (#[trigger] blocks[i]).valid()
}

/// A sprite sheet declared as data. It starts as a definition, and loading
/// replaces the definition, once and for good, by the handle under which the
/// sheet was registered.
#[derive(Debug)]
pub enum SpriteSheetPrefab<T, H> {
    /// A loaded sheet: its name, if it has one, and its handle.
    Handle((Option<String>, H)),
    /// The definition of a sheet.
    Sheet {
        /// The texture that holds the images of the sprites.
        texture: T,
        /// The sprites of the sheet, block by block.
        sprites: Vec<Sprites>,
        /// The name by which renders can refer to the sheet.
        name: Option<String>,
    },
}

impl<T, H> SpriteSheetPrefab<T, H> {
    /// The sheet is a definition whose blocks are all valid, or is loaded.
    pub open spec fn buildable(&self) -> bool {
        self matches SpriteSheetPrefab::Sheet { sprites, .. } ==> all_valid(sprites@)
    }

    /// The sheet after it was registered under `handle`: a definition becomes
    /// that handle under the definition's name, a loaded sheet stays.
    pub open spec fn registered(self, handle: H) -> Self {
        match self {
            SpriteSheetPrefab::Sheet { name, .. } => SpriteSheetPrefab::Handle((name, handle)),
            SpriteSheetPrefab::Handle(loaded) => SpriteSheetPrefab::Handle(loaded),
        }
    }

    /// A sheet that was registered is loaded, and stays as it is whatever is
    /// registered for it later: the change from definition to handle happens
    /// once and is never undone.
    pub proof fn lemma_registered_is_final(self, handle: H, later: H)
        ensures
            self.registered(handle) is Handle,
            self.registered(handle).registered(later) == self.registered(handle),
            self is Handle ==> self.registered(handle) == self,
    {
    }

    /// Tells whether the sheet is [`buildable`](Self::buildable).
    pub fn is_buildable(&self) -> (buildable: bool)
        ensures
            buildable == self.buildable(),
    {
        match self {
            SpriteSheetPrefab::Handle(_) => true,
            SpriteSheetPrefab::Sheet { sprites, .. } => {
                let mut i: usize = 0;
                while i < sprites.len()
                    invariant
                        self matches SpriteSheetPrefab::Sheet { sprites: blocks, .. } && blocks@
                            == sprites@,
                        i <= sprites@.len(),
                        forall|k: int| 0 <= k < i ==> (#[trigger] sprites@[k]).valid(),
                    decreases sprites@.len() - i,
                {
                    if !sprites[i].is_valid() {
                        return false;
                    }
                    i += 1;
                }
                true
            },
        }
    }

    /// The sprites to register for a definition: those of all its blocks, in
    /// the order of the blocks. A loaded sheet has none left to register.
    pub fn build_sprites(&self) -> (built: Option<Vec<Sprite>>)
        requires
            self.buildable(),
        ensures
            match *self {
                SpriteSheetPrefab::Sheet { sprites, .. } => built matches Some(all)
                    && all@ == all_sprites(sprites@),
                SpriteSheetPrefab::Handle(_) => built is None,
            },
    {
        match self {
            SpriteSheetPrefab::Handle(_) => None,
            SpriteSheetPrefab::Sheet { sprites, .. } => {
                let mut all: Vec<Sprite> = Vec::new();
                let mut i: usize = 0;
                while i < sprites.len()
                    invariant
                        i <= sprites@.len(),
                        all_valid(sprites@),
                        all@ == all_sprites(sprites@.take(i as int)),
                    decreases sprites@.len() - i,
                {
                    let mut block = sprites[i].build_sprites();
                    all.append(&mut block);
                    proof {
                        let next = sprites@.take(i + 1);
                        assert(next.drop_last() == sprites@.take(i as int));
                        assert(next.last() == sprites@[i as int]);
                    }
                    i += 1;
                }
                assert(sprites@.take(i as int) == sprites@);
                Some(all)
            },
        }
    }

    /// Records that the sheet was registered under `handle`, and tells whether
    /// that changed it: a definition turns into the handle and keeps its name;
    /// a sheet that was loaded before stays as it is.
    pub fn load_sub_assets(&mut self, handle: H) -> (changed: bool)
        ensures
            *final(self) == old(self).registered(handle),
            changed == (*old(self) is Sheet),
    {
        match self {
            SpriteSheetPrefab::Sheet { name, .. } => {
                let name = name.take();
                *self = SpriteSheetPrefab::Handle((name, handle));
                true
            },
            SpriteSheetPrefab::Handle(_) => false,
        }
    }
}

impl<T, H: Clone> SpriteSheetPrefab<T, H> {
    /// Name and handle of a loaded sheet.
    pub fn add_to_entity(&self) -> (loaded: (Option<String>, H))
        requires
            self is Handle,
        ensures
            loaded.0 == self->Handle_0.0,
            cloned(self->Handle_0.1, loaded.1),
    {
        match self {
            SpriteSheetPrefab::Handle(loaded) => {
                let name = match &loaded.0 {
                    Some(name) => Some(name.clone()),
                    None => None,
                };
                (name, loaded.1.clone())
            },
            SpriteSheetPrefab::Sheet { .. } => unreached(),
        }
    }
}

/// A reference to what an option holds.
pub open spec fn referenced<X>(option: &Option<X>) -> Option<&X> {
    match option {
        Some(value) => Some(value),
        None => None,
    }
}

/// A scene of sprites declared as data: a sheet, a render and a transform,
/// each of which may be missing.
#[derive(Debug)]
pub struct SpriteScenePrefab<T, H, X> {
    /// The sprite sheet.
    pub sheet: Option<SpriteSheetPrefab<T, H>>,
    /// The render to add to the entity.
    pub render: Option<SpriteRenderPrefab<H>>,
    /// The transform to add to the entity.
    pub transform: Option<X>,
}

impl<T, H, X> Default for SpriteScenePrefab<T, H, X> {
    fn default() -> (prefab: Self)
        ensures
            prefab.sheet is None,
            prefab.render is None,
            prefab.transform is None,
    {
        SpriteScenePrefab { sheet: None, render: None, transform: None }
    }
}

impl<T, H: Clone, X> SpriteScenePrefab<T, H, X> {
    /// The scene can be loaded with what was registered for it: the handle of
    /// its sheet is there unless the sheet was loaded before, and its render
    /// refers to a sheet.
    pub open spec fn loadable(&self, registered: Option<H>) -> bool {
        &&& self.sheet matches Some(sheet) ==> sheet is Sheet ==> registered is Some
        &&& self.render matches Some(render) ==> render.sheet is Some
    }

    /// The sheet of a scene after loading with what was registered for it.
    pub open spec fn sheet_loaded(
        sheet: Option<SpriteSheetPrefab<T, H>>,
        registered: Option<H>,
    ) -> Option<SpriteSheetPrefab<T, H>> {
        match (sheet, registered) {
            (Some(sheet), Some(handle)) => Some(sheet.registered(handle)),
            _ => sheet,
        }
    }

    /// How loading changes a scene and the set of loaded sheets, and what it
    /// reports. The sheet is registered first. If the scene has a sheet, its
    /// name and a clone of its handle are appended to the loaded sheets, also
    /// where the sheet was loaded before. The render is loaded last, against
    /// the sheets loaded by then, and its error is the scene's. Success tells
    /// whether the sheet was a definition until now.
    pub open spec fn loaded_from(
        before: Self,
        after: Self,
        loaded_before: SpriteSheetLoadedSet<H>,
        loaded_after: SpriteSheetLoadedSet<H>,
        registered: Option<H>,
        result: Result<bool, PrefabError>,
    ) -> bool {
        &&& after.sheet == Self::sheet_loaded(before.sheet, registered)
        &&& after.transform == before.transform
        &&& match after.sheet {
            Some(SpriteSheetPrefab::Handle(sheet)) => {
                &&& loaded_after.0@.len() == loaded_before.0@.len() + 1
                &&& loaded_after.0@.drop_last() =~= loaded_before.0@
                &&& loaded_after.0@.last().0 == sheet.0
                &&& cloned(sheet.1, loaded_after.0@.last().1)
            },
            _ => loaded_after.0@ == loaded_before.0@,
        }
        &&& match before.render {
            Some(render) => after.render matches Some(render_after)
                && SpriteRenderPrefab::loaded_from(
                render,
                render_after,
                loaded_after,
                match result {
                    Ok(_) => Ok(false),
                    Err(error) => Err(error),
                },
            ),
            None => after.render is None && result is Ok,
        }
        &&& result matches Ok(changed) ==> changed == (before.sheet matches Some(sheet)
            && sheet is Sheet)
    }

    /// What attaching a scene gives: the component of its render, if it has a
    /// render, and its transform, if it has one; or the error of attaching the
    /// render.
    pub open spec fn attached_from(
        prefab: Self,
        result: Result<(Option<SpriteRender<H>>, Option<&X>), PrefabError>,
    ) -> bool {
        match prefab.render {
            Some(render) => match result {
                Ok(parts) => {
                    &&& parts.0 matches Some(component)
                    &&& SpriteRenderPrefab::attached_from(render, Ok(component))
                    &&& parts.1 == referenced(&prefab.transform)
                },
                Err(error) => SpriteRenderPrefab::attached_from(render, Err(error)),
            },
            None => result matches Ok(parts) && parts.0 is None && parts.1
                == referenced(&prefab.transform),
        }
    }

    /// Loads the scene. `registered` is the handle under which the scene's
    /// sheet was registered in this pass, if it was; `loaded` are the sheets
    /// loaded so far, to which the scene adds its own before its render is
    /// looked up in them.
    pub fn load_sub_assets(
        &mut self,
        loaded: &mut SpriteSheetLoadedSet<H>,
        registered: Option<H>,
    ) -> (result: Result<bool, PrefabError>)
        requires
            old(self).loadable(registered),
        ensures
            Self::loaded_from(
                *old(self),
                *final(self),
                *old(loaded),
                *final(loaded),
                registered,
                result,
            ),
    {
        let mut changed = false;
        match &mut self.sheet {
            Some(sheet) => {
                match registered {
                    Some(handle) => {
                        changed = sheet.load_sub_assets(handle);
                    },
                    None => {},
                }
                let entry = sheet.add_to_entity();
                loaded.0.push(entry);
            },
            None => {},
        }
        match &mut self.render {
            Some(render) => {
                match render.load_sub_assets(loaded) {
                    Ok(_) => {},
                    Err(error) => {
                        return Err(error);
                    },
                }
            },
            None => {},
        }
        Ok(changed)
    }

    /// The components to insert for the entity of this scene: that of the
    /// render first, then the transform.
    pub fn add_to_entity(&self) -> (result: Result<
        (Option<SpriteRender<H>>, Option<&X>),
        PrefabError,
    >)
        ensures
            Self::attached_from(*self, result),
    {
        let component = match &self.render {
            Some(render) => match render.add_to_entity() {
                Ok(component) => Some(component),
                Err(error) => {
                    return Err(error);
                },
            },
            None => None,
        };
        Ok((component, self.transform.as_ref()))
    }
}

} // verus!
