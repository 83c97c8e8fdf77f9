//! Drawable normalization and the texture catalog.
//!
//! A contribution is turned into one renderer-ready `DrawableTileData` per
//! (color mapping, image variant) pair.  The record carries a `TextureKey`
//! rather than a live texture: the host looks the texture up (or decodes it
//! once) under that key.  `TextureCatalog` collects the distinct keys a set
//! of packages needs, so each texture is materialized at most once.

use vstd::prelude::*;

use crate::geometry::{min_xy_bounding_box_for_iso_size, Tile, TILE_H_HALF, TILE_W_HALF};
use crate::plugin::{Contribution, ContributionImageData, ContributionSprite, Plugin};
use crate::text::str_eq;

verus! {

/// The key one materialized texture is cached under: package title, resolved
/// image reference, and the index of the color mapping applied.
pub struct TextureKey {
    pub title: String,
    pub image_ref: String,
    pub mapping_index: usize,
}

/// The mathematical value of a `TextureKey`.
#[verifier::ext_equal]
pub struct TextureKeyModel {
    pub title: Seq<char>,
    pub image_ref: Seq<char>,
    pub mapping_index: usize,
}

impl View for TextureKey {
    type V = TextureKeyModel;

    open spec fn view(&self) -> TextureKeyModel {
        TextureKeyModel {
            title: self.title@,
            image_ref: self.image_ref@,
            mapping_index: self.mapping_index,
        }
    }
}

/// One quad of a texture: where it sits in the atlas, its size, and its
/// drawing offset in pixels.
#[derive(PartialEq, Eq, Structural, Clone, Copy, Debug)]
pub struct Drawable {
    pub offset_x: i32,
    pub offset_y: i32,
    pub origin_x: i32,
    pub origin_y: i32,
    pub width: i32,
    pub height: i32,
}

/// The image data of one drawable record: a single quad, or the three tiers
/// of a multistorey structure.
#[derive(PartialEq, Eq, Structural, Clone, Copy, Debug)]
pub enum ImageData {
    SingleDrawable(Drawable),
    MultistoreyDrawable(Drawable, Drawable, Drawable),
}

/// One normalized drawable record: the texture key, the quad(s) to draw, and
/// the footprint in tiles (flipped when the variant is).
pub struct DrawableTileData {
    pub texture: TextureKey,
    pub image_data: ImageData,
    pub size: Tile,
}

/// The mathematical value of a `DrawableTileData`.
#[verifier::ext_equal]
pub struct DrawableTileDataModel {
    pub texture: TextureKeyModel,
    pub image_data: ImageData,
    pub size: Tile,
}

impl View for DrawableTileData {
    type V = DrawableTileDataModel;

    open spec fn view(&self) -> DrawableTileDataModel {
        DrawableTileDataModel {
            texture: self.texture@,
            image_data: self.image_data,
            size: self.size,
        }
    }
}

/// Width in pixels of the bounding box of a footprint.
pub open spec fn bbox_w(size: Tile) -> int {
    (size.x + size.y) * TILE_W_HALF
}

/// Height in pixels of the bounding box of a footprint.
pub open spec fn bbox_h(size: Tile) -> int {
    (size.x + size.y) * TILE_H_HALF
}

/// Whether a quad is the normalization of sprite `s` against a bounding box
/// of `w` by `h` pixels: the atlas origin is the sprite's, the pixel height
/// is the bounding-box height plus the sprite's vertical offset.
pub open spec fn drawable_matches(d: Drawable, s: ContributionSprite, w: int, h: int) -> bool {
    &&& d.offset_x == 0
    &&& d.offset_y == s.offset
    &&& d.origin_x == s.origin_x
    &&& d.origin_y == s.origin_y
    &&& d.width == w
    &&& d.height == h + s.offset
}

/// Whether `img` is the normalization of image variant `id`.
pub open spec fn image_matches(img: ImageData, id: ContributionImageData, w: int, h: int) -> bool {
    match (img, id) {
        (
            ImageData::SingleDrawable(d),
            ContributionImageData::ContributionSprite(s),
        ) => drawable_matches(d, s, w, h),
        (
            ImageData::MultistoreyDrawable(t, m, b),
            ContributionImageData::ContributionMultistorey(ms),
        ) => drawable_matches(t, ms.top, w, h) && drawable_matches(m, ms.middle, w, h)
            && drawable_matches(b, ms.bottom, w, h),
        _ => false,
    }
}

/// Whether the variant's orientation-flip flag is set (for a multistorey
/// set: on any tier).
pub open spec fn spec_flipped(id: ContributionImageData) -> bool {
    match id {
        ContributionImageData::ContributionSprite(s) => s.opposite,
        ContributionImageData::ContributionMultistorey(m) => m.top.opposite || m.middle.opposite
            || m.bottom.opposite,
        ContributionImageData::ContributionAutotile(_, _) => false,
    }
}

/// The stored footprint of a record: the declared size, with the x and y
/// extents swapped when the variant is flipped.
pub open spec fn spec_flip_size(size: Tile, id: ContributionImageData) -> Tile {
    if spec_flipped(id) {
        Tile { x: size.y, y: size.x, z: size.z }
    } else {
        size
    }
}

/// Whether normalizing this variant against bounding-box height `h` stays in
/// `i32` range; the autotile placeholder has no normalization at all.
pub open spec fn image_height_fits(id: ContributionImageData, h: int) -> bool {
    match id {
        ContributionImageData::ContributionSprite(s) => i32::MIN <= h + s.offset <= i32::MAX,
        ContributionImageData::ContributionMultistorey(m) => i32::MIN <= h + m.top.offset
            <= i32::MAX && i32::MIN <= h + m.middle.offset <= i32::MAX && i32::MIN <= h
            + m.bottom.offset <= i32::MAX,
        ContributionImageData::ContributionAutotile(_, _) => false,
    }
}

/// Normalizes one sprite against the contribution's pixel bounding box.
pub fn contribution_sprite_to_drawable(s: &ContributionSprite, w: i32, h: i32) -> (r: Drawable)
    requires
        i32::MIN <= h + s.offset <= i32::MAX,
    ensures
        drawable_matches(r, *s, w as int, h as int),
{
    Drawable {
        offset_x: 0,
        offset_y: s.offset,
        origin_x: s.origin_x,
        origin_y: s.origin_y,
        width: w,
        height: h + s.offset,
    }
}

/// Normalizes a contribution into its drawable records: one per
/// (color mapping, image variant) pair, mapping index outermost, each keyed
/// by (title, image reference, mapping index), with the footprint flipped
/// where the variant is.
pub fn load_drawable_tile_data_from_contribution(contribution: &Contribution, title: &str) -> (r:
    Vec<DrawableTileData>)
    requires
        i32::MIN <= bbox_w(contribution.size) <= i32::MAX,
        forall|j: int|
            0 <= j < contribution.image_data@.len() ==> image_height_fits(
                #[trigger] contribution.image_data@[j],
                bbox_h(contribution.size),
            ),
    ensures
        r@.len() == contribution.color_mappings@.len() * contribution.image_data@.len(),
        forall|i: int, j: int|
            0 <= i < contribution.color_mappings@.len() && 0 <= j
                < contribution.image_data@.len() ==> {
                let rec = #[trigger] r@[i * contribution.image_data@.len() + j];
                &&& rec.texture.title@ == title@
                &&& rec.texture.image_ref@ == contribution.image_ref@
                &&& rec.texture.mapping_index == i
                &&& image_matches(
                    rec.image_data,
                    contribution.image_data@[j],
                    bbox_w(contribution.size),
                    bbox_h(contribution.size),
                )
                &&& rec.size == spec_flip_size(contribution.size, contribution.image_data@[j])
            },
{
    let (w, h) = min_xy_bounding_box_for_iso_size(contribution.size.x, contribution.size.y);
    let n_maps = contribution.color_mappings.len();
    let n_imgs = contribution.image_data.len();
    let ghost m = contribution.image_data@.len() as int;
    let mut drawables: Vec<DrawableTileData> = Vec::new();
    let mut i: usize = 0;
    while i < n_maps
        invariant
            0 <= i <= n_maps,
            n_maps == contribution.color_mappings@.len(),
            n_imgs == contribution.image_data@.len(),
            m == n_imgs as int,
            w == bbox_w(contribution.size),
            h == bbox_h(contribution.size),
            forall|j: int|
                0 <= j < m ==> image_height_fits(#[trigger] contribution.image_data@[j], h as int),
            drawables@.len() == i * m,
            forall|i2: int, j2: int|
                0 <= i2 < i && 0 <= j2 < m ==> {
                    let rec = #[trigger] drawables@[i2 * m + j2];
                    &&& rec.texture.title@ == title@
                    &&& rec.texture.image_ref@ == contribution.image_ref@
                    &&& rec.texture.mapping_index == i2
                    &&& image_matches(
                        rec.image_data,
                        contribution.image_data@[j2],
                        w as int,
                        h as int,
                    )
                    &&& rec.size == spec_flip_size(contribution.size, contribution.image_data@[j2])
                },
        decreases n_maps - i,
    {
        let mut j: usize = 0;
        while j < n_imgs
            invariant
                0 <= i < n_maps,
                0 <= j <= n_imgs,
                n_maps == contribution.color_mappings@.len(),
                n_imgs == contribution.image_data@.len(),
                m == n_imgs as int,
                w == bbox_w(contribution.size),
                h == bbox_h(contribution.size),
                forall|j2: int|
                    0 <= j2 < m ==> image_height_fits(
                        #[trigger] contribution.image_data@[j2],
                        h as int,
                    ),
                drawables@.len() == i * m + j,
                forall|i2: int, j2: int|
                    (0 <= i2 < i && 0 <= j2 < m) || (i2 == i && 0 <= j2 < j) ==> {
                        let rec = #[trigger] drawables@[i2 * m + j2];
                        &&& rec.texture.title@ == title@
                        &&& rec.texture.image_ref@ == contribution.image_ref@
                        &&& rec.texture.mapping_index == i2
                        &&& image_matches(
                            rec.image_data,
                            contribution.image_data@[j2],
                            w as int,
                            h as int,
                        )
                        &&& rec.size == spec_flip_size(
                            contribution.size,
                            contribution.image_data@[j2],
                        )
                    },
            decreases n_imgs - j,
        {
            let id = &contribution.image_data[j];
            let (image_data, flip) = match id {
                ContributionImageData::ContributionSprite(s) => (
                    ImageData::SingleDrawable(contribution_sprite_to_drawable(s, w, h)),
                    s.opposite,
                ),
                ContributionImageData::ContributionMultistorey(ms) => (
                    ImageData::MultistoreyDrawable(
                        contribution_sprite_to_drawable(&ms.top, w, h),
                        contribution_sprite_to_drawable(&ms.middle, w, h),
                        contribution_sprite_to_drawable(&ms.bottom, w, h),
                    ),
                    ms.top.opposite || ms.middle.opposite || ms.bottom.opposite,
                ),
                ContributionImageData::ContributionAutotile(_, _) => {
                    proof {
                        assert(image_height_fits(contribution.image_data@[j as int], h as int));
                        assert(false);
                    }
                    (
                        ImageData::SingleDrawable(
                            Drawable {
                                offset_x: 0,
                                offset_y: 0,
                                origin_x: 0,
                                origin_y: 0,
                                width: 0,
                                height: 0,
                            },
                        ),
                        false,
                    )
                },
            };
            let size = if flip {
                Tile {
                    x: contribution.size.y,
                    y: contribution.size.x,
                    z: contribution.size.z,
                }
            } else {
                contribution.size
            };
            let record = DrawableTileData {
                texture: TextureKey {
                    title: String::from_str(title),
                    image_ref: contribution.image_ref.clone(),
                    mapping_index: i,
                },
                image_data,
                size,
            };
            let ghost prev = drawables@;
            drawables.push(record);
            proof {
                assert forall|i2: int, j2: int|
                    (0 <= i2 < i && 0 <= j2 < m) || (i2 == i && 0 <= j2 < j + 1) implies {
                    let rec = #[trigger] drawables@[i2 * m + j2];
                    &&& rec.texture.title@ == title@
                    &&& rec.texture.image_ref@ == contribution.image_ref@
                    &&& rec.texture.mapping_index == i2
                    &&& image_matches(
                        rec.image_data,
                        contribution.image_data@[j2],
                        w as int,
                        h as int,
                    )
                    &&& rec.size == spec_flip_size(contribution.size, contribution.image_data@[j2])
                } by {
                    if i2 == i && j2 == j {
                        assert(i2 * m + j2 == prev.len()) by (nonlinear_arith)
                            requires
                                i2 == i,
                                j2 == j,
                                prev.len() == i * m + j,
                        ;
                        assert(drawables@[i2 * m + j2] == record);
                    } else {
                        assert(i2 * m + j2 < prev.len()) by (nonlinear_arith)
                            requires
                                0 <= j2 < m,
                                i2 >= 0,
                                j >= 0,
                                (0 <= i2 < i && 0 <= j2 < m) || (i2 == i && 0 <= j2 < j),
                                prev.len() == i * m + j,
                        ;
                        assert(drawables@[i2 * m + j2] == prev[i2 * m + j2]);
                    }
                };
            }
            j = j + 1;
        }
        proof {
            assert(i * m + m == (i + 1) * m) by (nonlinear_arith);
        }
        i = i + 1;
    }
    proof {
        assert(n_maps * m == n_maps as int * contribution.image_data@.len());
    }
    drawables
}

// ---------------------------------------------------------------------------
// Texture catalog
// ---------------------------------------------------------------------------

/// The models of a sequence of texture keys.
pub open spec fn key_views(ks: Seq<TextureKey>) -> Seq<TextureKeyModel> {
    ks.map_values(|k: TextureKey| k@)
}

/// The distinct texture keys a set of packages needs, each registered once.
pub struct TextureCatalog {
    keys: Vec<TextureKey>,
}

impl TextureCatalog {
    /// All registered keys, in registration order.
    pub closed spec fn keys_view(self) -> Seq<TextureKeyModel> {
        key_views(self.keys@)
    }

    /// No key is registered twice: each texture is materialized at most
    /// once.
    pub open spec fn wf(self) -> bool {
        forall|i: int, j: int|
            0 <= i < j < self.keys_view().len() ==> self.keys_view()[i] != self.keys_view()[j]
    }

    /// Whether `k` is registered.
    pub open spec fn spec_contains(self, k: TextureKeyModel) -> bool {
        exists|i: int| 0 <= i < self.keys_view().len() && self.keys_view()[i] == k
    }

    /// An empty catalog.
    pub fn new() -> (r: TextureCatalog)
        ensures
            r.wf(),
            r.keys_view().len() == 0,
    {
        let r = TextureCatalog { keys: Vec::new() };
        proof {
            assert(r.keys_view() =~= Seq::<TextureKeyModel>::empty());
        }
        r
    }

    /// How many keys are registered.
    pub fn len(&self) -> (n: usize)
        ensures
            n == self.keys_view().len(),
    {
        proof {
            assert(self.keys_view().len() == self.keys@.len());
        }
        self.keys.len()
    }

    /// The key at a registration index, for the host to materialize.
    pub fn key_at(&self, i: usize) -> (k: &TextureKey)
        requires
            i < self.keys_view().len(),
        ensures
            k@ == self.keys_view()[i as int],
    {
        proof {
            assert(self.keys_view().len() == self.keys@.len());
            assert(self.keys_view()[i as int] == self.keys@[i as int]@);
        }
        &self.keys[i]
    }

    /// Finds `key` among the registered keys.
    fn find(&self, key: &TextureKey) -> (r: Option<usize>)
        ensures
            match r {
                Some(i) => i < self.keys_view().len() && self.keys_view()[i as int] == key@,
                None => !self.spec_contains(key@),
            },
    {
        let n = self.keys.len();
        let mut i: usize = 0;
        while i < n
            invariant
                0 <= i <= n,
                n == self.keys@.len(),
                forall|j: int| 0 <= j < i ==> key_views(self.keys@)[j] != key@,
            decreases n - i,
        {
            let k = &self.keys[i];
            proof {
                assert(key_views(self.keys@)[i as int] == self.keys@[i as int]@);
            }
            if str_eq(k.title.as_str(), key.title.as_str()) && str_eq(
                k.image_ref.as_str(),
                key.image_ref.as_str(),
            ) && k.mapping_index == key.mapping_index {
                proof {
                    assert(self.keys@[i as int]@ =~= key@);
                }
                return Some(i);
            }
            proof {
                assert(self.keys@[i as int]@ != key@);
            }
            i = i + 1;
        }
        None
    }

    /// Registers `key` if it is new; either way returns the index it lives
    /// at.  Registered keys are never duplicated.
    pub fn ensure_texture(&mut self, key: TextureKey) -> (idx: usize)
        requires
            old(self).wf(),
        ensures
            final(self).wf(),
            idx < final(self).keys_view().len(),
            final(self).keys_view()[idx as int] == key@,
            old(self).spec_contains(key@) ==> *final(self) == *old(self),
            !old(self).spec_contains(key@) ==> final(self).keys_view() == old(
                self,
            ).keys_view().push(key@),
            forall|k: TextureKeyModel|
                final(self).spec_contains(k) <==> old(self).spec_contains(k) || k == key@,
    {
        match self.find(&key) {
            Some(i) => {
                proof {
                    assert forall|k: TextureKeyModel|
                        self.spec_contains(k) <==> self.spec_contains(k) || k == key@ by {
                        if k == key@ {
                            assert(self.keys_view()[i as int] == k);
                        }
                    };
                }
                i
            },
            None => {
                let idx = self.keys.len();
                let ghost prev = self.keys@;
                self.keys.push(key);
                proof {
                    assert(self.keys@ == prev.push(key));
                    assert(key_views(self.keys@) =~= key_views(prev).push(key@));
                    assert(self.keys_view()[idx as int] == key@);
                    assert forall|i2: int, j2: int|
                        0 <= i2 < j2 < self.keys_view().len() implies self.keys_view()[i2]
                        != self.keys_view()[j2] by {
                        if j2 == idx as int {
                            assert(self.keys_view()[i2] == old(self).keys_view()[i2]);
                            if self.keys_view()[i2] == key@ {
                                assert(old(self).spec_contains(key@));
                            }
                        } else {
                            assert(self.keys_view()[i2] == old(self).keys_view()[i2]);
                            assert(self.keys_view()[j2] == old(self).keys_view()[j2]);
                        }
                    };
                    assert forall|k: TextureKeyModel|
                        self.spec_contains(k) <==> old(self).spec_contains(k) || k == key@ by {
                        if self.spec_contains(k) {
                            let w = choose|w: int|
                                0 <= w < self.keys_view().len() && self.keys_view()[w] == k;
                            if w < idx as int {
                                assert(old(self).keys_view()[w] == k);
                                assert(old(self).spec_contains(k));
                            } else {
                                assert(k == key@);
                            }
                        }
                        if old(self).spec_contains(k) {
                            let w = choose|w: int|
                                0 <= w < old(self).keys_view().len() && old(self).keys_view()[w]
                                    == k;
                            assert(self.keys_view()[w] == k);
                            assert(self.spec_contains(k));
                        }
                        if k == key@ {
                            assert(self.keys_view()[idx as int] == k);
                            assert(self.spec_contains(k));
                        }
                    };
                }
                idx
            },
        }
    }
}

/// Registers the texture key of every (contribution, color mapping) pair of
/// a package: afterward the catalog holds each needed key exactly once.
pub fn register_plugin_textures(catalog: &mut TextureCatalog, plugin: &Plugin)
    requires
        old(catalog).wf(),
    ensures
        final(catalog).wf(),
        forall|k: TextureKeyModel|
            old(catalog).spec_contains(k) ==> final(catalog).spec_contains(k),
        forall|c: int, i: int|
            0 <= c < plugin.contributions@.len() && 0 <= i
                < plugin.contributions@[c].color_mappings@.len() ==> #[trigger] final(
                catalog
            ).spec_contains(
                TextureKeyModel {
                    title: plugin.title@,
                    image_ref: plugin.contributions@[c].image_ref@,
                    mapping_index: i as usize,
                },
            ),
{
    let n = plugin.contributions.len();
    let mut c: usize = 0;
    while c < n
        invariant
            0 <= c <= n,
            n == plugin.contributions@.len(),
            catalog.wf(),
            forall|k: TextureKeyModel|
                old(catalog).spec_contains(k) ==> catalog.spec_contains(k),
            forall|c2: int, i2: int|
                0 <= c2 < c && 0 <= i2 < plugin.contributions@[c2].color_mappings@.len()
                    ==> #[trigger] catalog.spec_contains(
                    TextureKeyModel {
                        title: plugin.title@,
                        image_ref: plugin.contributions@[c2].image_ref@,
                        mapping_index: i2 as usize,
                    },
                ),
        decreases n - c,
    {
        let contribution = &plugin.contributions[c];
        let n_maps = contribution.color_mappings.len();
        let mut i: usize = 0;
        while i < n_maps
            invariant
                0 <= c < n,
                0 <= i <= n_maps,
                n == plugin.contributions@.len(),
                n_maps == plugin.contributions@[c as int].color_mappings@.len(),
                contribution == plugin.contributions@[c as int],
                catalog.wf(),
                forall|k: TextureKeyModel|
                    old(catalog).spec_contains(k) ==> catalog.spec_contains(k),
                forall|c2: int, i2: int|
                    0 <= c2 < c && 0 <= i2 < plugin.contributions@[c2].color_mappings@.len()
                        ==> #[trigger] catalog.spec_contains(
                        TextureKeyModel {
                            title: plugin.title@,
                            image_ref: plugin.contributions@[c2].image_ref@,
                            mapping_index: i2 as usize,
                        },
                    ),
                forall|i2: int|
                    0 <= i2 < i ==> #[trigger] catalog.spec_contains(
                        TextureKeyModel {
                            title: plugin.title@,
                            image_ref: plugin.contributions@[c as int].image_ref@,
                            mapping_index: i2 as usize,
                        },
                    ),
            decreases n_maps - i,
        {
            let key = TextureKey {
                title: plugin.title.clone(),
                image_ref: contribution.image_ref.clone(),
                mapping_index: i,
            };
            catalog.ensure_texture(key);
            i = i + 1;
        }
        c = c + 1;
    }
}

} // verus!
