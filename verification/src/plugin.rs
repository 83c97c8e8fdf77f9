//! The descriptor parser and contribution resolver: turns one decoded
//! manifest document into a `Plugin` of typed `Contribution` records, with
//! picture references resolved and every shape rule of the format enforced.
//!
//! Each parsing step has a specification function over the `XmlElem` tree;
//! the executable parser is proved to return exactly what the specification
//! says, error cases included.

use vstd::prelude::*;

use crate::geometry::Tile;
use crate::text::{
    parse_i32_str,
    spec_parse_i32,
    spec_split,
    spec_trim,
    split_str,
    str_eq,
    trim_str,
    eq_ignore_case,
    spec_eq_ignore_case,
};
use crate::xml::{
    attrs_lookup,
    decode_shift_jis,
    decode_utf8,
    find_child_tag,
    find_plugin_elem,
    find_tag,
    get_attr,
    parse_document,
    shift_jis_decoded,
    spec_find_plugin,
    utf8_decoded,
    xml_doc_of,
    XmlElem,
};

verus! {

/// Which source channel a color mapping reads; `NoRecolor` leaves the pixels
/// as they are.
#[derive(PartialEq, Eq, Structural, Clone, Copy, Debug)]
pub enum ColorMappingChannel {
    NoRecolor,
    Red,
    Green,
    Blue,
}

/// An RGB color with 0-255 channels.
#[derive(PartialEq, Eq, Structural, Clone, Copy, Debug)]
pub struct Rgb {
    pub r: u8,
    pub g: u8,
    pub b: u8,
}

/// One palette rule: recolor the selected channel's brightness mask into the
/// target color.
#[derive(PartialEq, Eq, Structural, Clone, Copy, Debug)]
pub struct ColorMapping {
    pub target: Rgb,
    pub channel: ColorMappingChannel,
}

/// One flat sprite: its origin in the atlas, its vertical pixel offset, and
/// whether its orientation is flipped.
#[derive(PartialEq, Eq, Structural, Clone, Copy, Debug)]
pub struct ContributionSprite {
    pub origin_x: i32,
    pub origin_y: i32,
    pub offset: i32,
    pub opposite: bool,
}

/// A three-tier vertical composition for height-variable structures.
#[derive(PartialEq, Eq, Structural, Clone, Copy, Debug)]
pub struct ContributionMultistorey {
    pub top: ContributionSprite,
    pub middle: ContributionSprite,
    pub bottom: ContributionSprite,
}

/// Placeholder for the unimplemented autotile variant.
#[derive(PartialEq, Eq, Structural, Clone, Copy, Debug)]
pub struct ContributionAutotile {}

/// The image data of one contribution variant.
#[derive(PartialEq, Eq, Structural, Clone, Copy, Debug)]
pub enum ContributionImageData {
    ContributionSprite(ContributionSprite),
    ContributionMultistorey(ContributionMultistorey),
    ContributionAutotile(ContributionAutotile, usize),
}

/// One placeable-object descriptor of a package.
///
/// `image_ref` is a picture-id while `image_ref_is_id` holds, and a plain
/// relative path once resolved (or when it came from a direct `src`).
#[derive(Debug)]
pub struct Contribution {
    pub size: Tile,
    pub image_ref: String,
    pub image_ref_is_id: bool,
    pub image_data: Vec<ContributionImageData>,
    pub color_mappings: Vec<ColorMapping>,
}

/// One loaded plugin package.
#[derive(Debug)]
pub struct Plugin {
    pub filename: String,
    pub title: String,
    pub author: String,
    pub contributions: Vec<Contribution>,
}

/// Why a package failed to load.
#[derive(Debug)]
pub enum PluginError {
    /// The manifest bytes decode in no supported encoding.
    EncodingError,
    /// The document's syntax is broken; carries the parser's diagnostic.
    MalformedDocumentError(String),
    /// A required metadata field (title, author, size) is missing.
    MissingMetadataError,
    /// A contribution's `type` attribute is missing or names no known kind.
    UnknownContributionTypeError,
    /// A required attribute or nested element is missing.
    MissingAttributeError,
    /// A contribution's shape is off: bad variant-set cardinality, differing
    /// picture references, or an unparsable required number.
    MalformedContributionError,
    /// A functional contribution references a picture-id that no
    /// picture-typed contribution registered.
    UnresolvedReferenceError,
}

/// The mathematical value of a `Contribution`.
#[verifier::ext_equal]
pub struct ContributionModel {
    pub size: Tile,
    pub image_ref: Seq<char>,
    pub image_ref_is_id: bool,
    pub image_data: Seq<ContributionImageData>,
    pub color_mappings: Seq<ColorMapping>,
}

impl View for Contribution {
    type V = ContributionModel;

    open spec fn view(&self) -> ContributionModel {
        ContributionModel {
            size: self.size,
            image_ref: self.image_ref@,
            image_ref_is_id: self.image_ref_is_id,
            image_data: self.image_data@,
            color_mappings: self.color_mappings@,
        }
    }
}

/// The mathematical value of a `Plugin`.
#[verifier::ext_equal]
pub struct PluginModel {
    pub filename: Seq<char>,
    pub title: Seq<char>,
    pub author: Seq<char>,
    pub contributions: Seq<ContributionModel>,
}

impl View for Plugin {
    type V = PluginModel;

    open spec fn view(&self) -> PluginModel {
        PluginModel {
            filename: self.filename@,
            title: self.title@,
            author: self.author@,
            contributions: self.contributions@.map_values(|c: Contribution| c@),
        }
    }
}

/// The mathematical value of a `PluginError`.
#[verifier::ext_equal]
pub enum PluginErrorModel {
    Encoding,
    MalformedDocument(Seq<char>),
    MissingMetadata,
    UnknownContributionType,
    MissingAttribute,
    MalformedContribution,
    UnresolvedReference,
}

impl View for PluginError {
    type V = PluginErrorModel;

    open spec fn view(&self) -> PluginErrorModel {
        match self {
            PluginError::EncodingError => PluginErrorModel::Encoding,
            PluginError::MalformedDocumentError(d) => PluginErrorModel::MalformedDocument(d@),
            PluginError::MissingMetadataError => PluginErrorModel::MissingMetadata,
            PluginError::UnknownContributionTypeError => PluginErrorModel::UnknownContributionType,
            PluginError::MissingAttributeError => PluginErrorModel::MissingAttribute,
            PluginError::MalformedContributionError => PluginErrorModel::MalformedContribution,
            PluginError::UnresolvedReferenceError => PluginErrorModel::UnresolvedReference,
        }
    }
}

/// The model of a contribution-or-error result.
pub open spec fn contribution_res_model(r: Result<Contribution, PluginError>) -> Result<
    ContributionModel,
    PluginErrorModel,
> {
    match r {
        Ok(c) => Ok(c@),
        Err(e) => Err(e@),
    }
}

/// The model of a package-or-error result.
pub open spec fn plugin_res_model(r: Result<Plugin, PluginError>) -> Result<
    PluginModel,
    PluginErrorModel,
> {
    match r {
        Ok(p) => Ok(p@),
        Err(e) => Err(e@),
    }
}

// ---------------------------------------------------------------------------
// Metadata fields
// ---------------------------------------------------------------------------

/// Whether an element child carries a metadata field: it has some child node
/// but no element children.
pub open spec fn is_metadata_elem(c: XmlElem) -> bool {
    c.has_child_nodes && c.children@.len() == 0
}

/// The value of a metadata field: its first text content, trimmed.
pub open spec fn metadata_value(c: XmlElem) -> Seq<char> {
    spec_trim(
        match c.first_text {
            Some(t) => t@,
            None => Seq::<char>::empty(),
        },
    )
}

/// The (key, value) pairs of the metadata children among `cs`, in document
/// order.
pub open spec fn spec_metadata(cs: Seq<XmlElem>) -> Seq<(Seq<char>, Seq<char>)>
    decreases cs.len(),
{
    if cs.len() == 0 {
        Seq::empty()
    } else {
        let front = spec_metadata(cs.drop_last());
        let c = cs.last();
        if is_metadata_elem(c) {
            front.push((c.tag@, metadata_value(c)))
        } else {
            front
        }
    }
}

/// The root's metadata: every element child not tagged `contribution`, its
/// tag as key and its first text content, trimmed, as value.
pub open spec fn spec_root_metadata(cs: Seq<XmlElem>) -> Seq<(Seq<char>, Seq<char>)>
    decreases cs.len(),
{
    if cs.len() == 0 {
        Seq::empty()
    } else {
        let front = spec_root_metadata(cs.drop_last());
        let c = cs.last();
        if c.tag@ != "contribution"@ {
            front.push((c.tag@, metadata_value(c)))
        } else {
            front
        }
    }
}

/// Last-wins lookup over (key, value) pairs, as repeated inserts into a map
/// behave.
pub open spec fn assoc_lookup(entries: Seq<(Seq<char>, Seq<char>)>, key: Seq<char>) -> Option<
    Seq<char>,
>
    decreases entries.len(),
{
    if entries.len() == 0 {
        None
    } else if entries.last().0 == key {
        Some(entries.last().1)
    } else {
        assoc_lookup(entries.drop_last(), key)
    }
}

// ---------------------------------------------------------------------------
// Hue transforms
// ---------------------------------------------------------------------------

/// Whether a child declares a hue transform.
pub open spec fn is_hue_transform(c: XmlElem) -> bool {
    c.tag@ == "spriteType"@ && attrs_lookup(c.attrs@, "name"@) == Some("hueTransform"@)
}

/// The channel a `from` attribute selects: a 3-tuple whose first `*` marks
/// the position (red, green, blue in that order), or a single
/// case-insensitive channel name.
pub open spec fn spec_channel_of(from: Seq<char>) -> Option<ColorMappingChannel> {
    let parts = spec_split(from, ',');
    if parts.len() == 3 {
        if parts[0] == "*"@ {
            Some(ColorMappingChannel::Red)
        } else if parts[1] == "*"@ {
            Some(ColorMappingChannel::Green)
        } else if parts[2] == "*"@ {
            Some(ColorMappingChannel::Blue)
        } else {
            None
        }
    } else if parts.len() == 1 {
        if spec_eq_ignore_case(from, "red"@) || spec_eq_ignore_case(from, "r"@) {
            Some(ColorMappingChannel::Red)
        } else if spec_eq_ignore_case(from, "green"@) || spec_eq_ignore_case(from, "g"@) {
            Some(ColorMappingChannel::Green)
        } else if spec_eq_ignore_case(from, "blue"@) || spec_eq_ignore_case(from, "b"@) {
            Some(ColorMappingChannel::Blue)
        } else {
            None
        }
    } else {
        None
    }
}

/// One channel value of a `to` tuple: a decimal number 0 to 255.
pub open spec fn spec_channel_val(s: Seq<char>) -> Option<u8> {
    match spec_parse_i32(s) {
        Some(v) => if 0 <= v <= 255 {
            Some(v as u8)
        } else {
            None
        },
        None => None,
    }
}

/// The target color of a `to` attribute: exactly three channel values.
pub open spec fn spec_target_of(to: Seq<char>) -> Option<Rgb> {
    let parts = spec_split(to, ',');
    if parts.len() != 3 {
        None
    } else {
        match (spec_channel_val(parts[0]), spec_channel_val(parts[1]), spec_channel_val(
            parts[2],
        )) {
            (Some(r), Some(g), Some(b)) => Some(Rgb { r, g, b }),
            _ => None,
        }
    }
}

/// The mapping one hue-transform node declares, or nothing when its shape or
/// numbers are off; such a node is skipped without failing the contribution.
pub open spec fn spec_hue_mapping(c: XmlElem) -> Option<ColorMapping> {
    match find_tag(c.children@, "map"@) {
        None => None,
        Some(m) => match (attrs_lookup(m.attrs@, "from"@), attrs_lookup(m.attrs@, "to"@)) {
            (Some(from), Some(to)) => match (spec_channel_of(from), spec_target_of(to)) {
                (Some(channel), Some(target)) => Some(ColorMapping { channel, target }),
                _ => None,
            },
            _ => None,
        },
    }
}

/// All mappings the hue-transform children declare, in document order.
pub open spec fn spec_hue_mappings(cs: Seq<XmlElem>) -> Seq<ColorMapping>
    decreases cs.len(),
{
    if cs.len() == 0 {
        Seq::empty()
    } else {
        let front = spec_hue_mappings(cs.drop_last());
        let c = cs.last();
        if is_hue_transform(c) {
            match spec_hue_mapping(c) {
                Some(m) => front.push(m),
                None => front,
            }
        } else {
            front
        }
    }
}

/// The passthrough mapping synthesized when none is declared.
pub open spec fn default_mapping() -> ColorMapping {
    ColorMapping { channel: ColorMappingChannel::NoRecolor, target: Rgb { r: 0, g: 0, b: 0 } }
}

/// The mappings of a contribution: the declared ones, or the single
/// passthrough mapping when none were declared (or all were skipped).
pub open spec fn spec_color_mappings(cs: Seq<XmlElem>) -> Seq<ColorMapping> {
    let declared = spec_hue_mappings(cs);
    if declared.len() == 0 {
        seq![default_mapping()]
    } else {
        declared
    }
}

// ---------------------------------------------------------------------------
// Sprites and multistorey sets
// ---------------------------------------------------------------------------

/// `v`, or zero where the number did not parse.
pub open spec fn or_zero(v: Option<i32>) -> i32 {
    match v {
        Some(x) => x,
        None => 0,
    }
}

/// The origin pair and offset of a sprite-shaped element: `origin` is an
/// `x,y` attribute whose parts are trimmed and default to zero, `offset` a
/// required integer attribute.
pub open spec fn spec_origin_offset(c: XmlElem) -> Result<(i32, i32, i32), PluginErrorModel> {
    match attrs_lookup(c.attrs@, "origin"@) {
        None => Err(PluginErrorModel::MissingAttribute),
        Some(origin) => {
            let parts = spec_split(origin, ',');
            if parts.len() < 2 {
                Err(PluginErrorModel::MalformedContribution)
            } else {
                let ox = or_zero(spec_parse_i32(spec_trim(parts[0])));
                let oy = or_zero(spec_parse_i32(spec_trim(parts[1])));
                match attrs_lookup(c.attrs@, "offset"@) {
                    None => Err(PluginErrorModel::MissingAttribute),
                    Some(off) => match spec_parse_i32(off) {
                        None => Err(PluginErrorModel::MalformedContribution),
                        Some(v) => Ok((ox, oy, v)),
                    },
                }
            }
        },
    }
}

/// Folds one parsed sprite's picture reference into the reference
/// accumulated so far (empty while unset): the first reference wins, and a
/// differing later one is a shape error.
pub open spec fn spec_join_ref(iref: Seq<char>, found: Option<Seq<char>>) -> Result<
    Seq<char>,
    PluginErrorModel,
> {
    match found {
        None => Ok(iref),
        Some(x) => if iref.len() == 0 {
            Ok(x)
        } else if x == iref {
            Ok(iref)
        } else {
            Err(PluginErrorModel::MalformedContribution)
        },
    }
}

/// The flat sprites among `cs` in document order, with the image reference
/// their nested picture elements agree on (empty when none declared one).
pub open spec fn spec_sprites(cs: Seq<XmlElem>) -> Result<
    (Seq<ContributionSprite>, Seq<char>),
    PluginErrorModel,
>
    decreases cs.len(),
{
    if cs.len() == 0 {
        Ok((Seq::empty(), Seq::empty()))
    } else {
        match spec_sprites(cs.drop_last()) {
            Err(e) => Err(e),
            Ok((sprites, iref)) => {
                let c = cs.last();
                if c.tag@ != "sprite"@ {
                    Ok((sprites, iref))
                } else {
                    match spec_origin_offset(c) {
                        Err(e) => Err(e),
                        Ok((ox, oy, off)) => {
                            let sp = ContributionSprite {
                                origin_x: ox,
                                origin_y: oy,
                                offset: off,
                                opposite: false,
                            };
                            match find_tag(c.children@, "picture"@) {
                                None => Err(PluginErrorModel::MissingAttribute),
                                Some(pic) => match spec_join_ref(
                                    iref,
                                    attrs_lookup(pic.attrs@, "ref"@),
                                ) {
                                    Err(e) => Err(e),
                                    Ok(joined) => Ok((sprites.push(sp), joined)),
                                },
                            }
                        },
                    }
                }
            },
        }
    }
}

/// One tier of a multistorey set: the child tagged `part` must exist and be
/// sprite-shaped.
pub open spec fn spec_multi_part(c: XmlElem, part: Seq<char>) -> Result<
    (ContributionSprite, XmlElem),
    PluginErrorModel,
> {
    match find_tag(c.children@, part) {
        None => Err(PluginErrorModel::MalformedContribution),
        Some(node) => match spec_origin_offset(node) {
            Err(e) => Err(e),
            Ok((ox, oy, off)) => Ok(
                (
                    ContributionSprite { origin_x: ox, origin_y: oy, offset: off, opposite: false },
                    node,
                ),
            ),
        },
    }
}

/// The multistorey sets among `cs` (children tagged `pictures`), with the
/// image reference their top tiers agree on.
pub open spec fn spec_multis(cs: Seq<XmlElem>) -> Result<
    (Seq<ContributionMultistorey>, Seq<char>),
    PluginErrorModel,
>
    decreases cs.len(),
{
    if cs.len() == 0 {
        Ok((Seq::empty(), Seq::empty()))
    } else {
        match spec_multis(cs.drop_last()) {
            Err(e) => Err(e),
            Ok((multis, iref)) => {
                let c = cs.last();
                if c.tag@ != "pictures"@ {
                    Ok((multis, iref))
                } else {
                    match spec_multi_part(c, "top"@) {
                        Err(e) => Err(e),
                        Ok((top, top_node)) => match spec_multi_part(c, "middle"@) {
                            Err(e) => Err(e),
                            Ok((middle, _)) => match spec_multi_part(c, "bottom"@) {
                                Err(e) => Err(e),
                                Ok((bottom, _)) => match find_tag(top_node.children@, "picture"@) {
                                    None => Err(PluginErrorModel::MissingAttribute),
                                    Some(pic) => match spec_join_ref(
                                        iref,
                                        attrs_lookup(pic.attrs@, "ref"@),
                                    ) {
                                        Err(e) => Err(e),
                                        Ok(joined) => Ok(
                                            (
                                                multis.push(
                                                    ContributionMultistorey { top, middle, bottom },
                                                ),
                                                joined,
                                            ),
                                        ),
                                    },
                                },
                            },
                        },
                    }
                }
            },
        }
    }
}

// ---------------------------------------------------------------------------
// Contribution kinds
// ---------------------------------------------------------------------------

/// Closes a generic-structure parse: requires a nonempty image reference,
/// reads the transposed `size` field (first number is the y extent) and the
/// optional `height`, and assembles the record.
pub open spec fn spec_generic_finish(
    md: Seq<(Seq<char>, Seq<char>)>,
    mappings: Seq<ColorMapping>,
    image_data: Seq<ContributionImageData>,
    iref: Seq<char>,
) -> Result<ContributionModel, PluginErrorModel> {
    if iref.len() == 0 {
        Err(PluginErrorModel::MissingAttribute)
    } else {
        match assoc_lookup(md, "size"@) {
            None => Err(PluginErrorModel::MissingMetadata),
            Some(size_str) => {
                let parts = spec_split(size_str, ',');
                if parts.len() < 2 {
                    Err(PluginErrorModel::MalformedContribution)
                } else {
                    let size_x = or_zero(spec_parse_i32(parts[1]));
                    let size_y = or_zero(spec_parse_i32(parts[0]));
                    let height = match assoc_lookup(md, "height"@) {
                        None => 0i32,
                        Some(h) => or_zero(spec_parse_i32(h)),
                    };
                    Ok(
                        ContributionModel {
                            size: Tile { x: size_x, y: size_y, z: height },
                            image_ref: iref,
                            image_ref_is_id: true,
                            image_data,
                            color_mappings: mappings,
                        },
                    )
                }
            },
        }
    }
}

/// A `GenericStructure` contribution: metadata-driven footprint, declared or
/// defaulted color mappings, and exactly one of a nonempty flat sprite list
/// or a single multistorey set.
pub open spec fn spec_generic_structure(e: XmlElem) -> Result<ContributionModel, PluginErrorModel> {
    let md = spec_metadata(e.children@);
    let mappings = spec_color_mappings(e.children@);
    match spec_sprites(e.children@) {
        Err(err) => Err(err),
        Ok((sprites, sref)) => match spec_multis(e.children@) {
            Err(err) => Err(err),
            Ok((multis, mref)) => {
                if sprites.len() >= 1 && multis.len() == 0 {
                    spec_generic_finish(
                        md,
                        mappings,
                        sprites.map_values(
                            |s: ContributionSprite| ContributionImageData::ContributionSprite(s),
                        ),
                        sref,
                    )
                } else if sprites.len() == 0 && multis.len() == 1 {
                    spec_generic_finish(
                        md,
                        mappings,
                        multis.map_values(
                            |m: ContributionMultistorey|
                                ContributionImageData::ContributionMultistorey(m),
                        ),
                        mref,
                    )
                } else {
                    Err(PluginErrorModel::MalformedContribution)
                }
            },
        },
    }
}

/// A `road` contribution: fixed 1 by 1 by 1 footprint, a direct `src` path
/// from its nested picture element, no variants and no mappings.
pub open spec fn spec_road(e: XmlElem) -> Result<ContributionModel, PluginErrorModel> {
    match find_tag(e.children@, "picture"@) {
        None => Err(PluginErrorModel::MalformedContribution),
        Some(pic) => match attrs_lookup(pic.attrs@, "src"@) {
            None => Err(PluginErrorModel::MissingAttribute),
            Some(src) => Ok(
                ContributionModel {
                    size: Tile { x: 1, y: 1, z: 1 },
                    image_ref: src,
                    image_ref_is_id: false,
                    image_data: Seq::empty(),
                    color_mappings: Seq::empty(),
                },
            ),
        },
    }
}

/// Whether a root child is a contribution element.
pub open spec fn is_contribution_elem(c: XmlElem) -> bool {
    c.tag@ == "contribution"@
}

/// A contribution's `type` attribute.
pub open spec fn contribution_type(c: XmlElem) -> Option<Seq<char>> {
    attrs_lookup(c.attrs@, "type"@)
}

/// Whether a root child is a picture-typed contribution.
pub open spec fn is_picture_contribution(c: XmlElem) -> bool {
    is_contribution_elem(c) && contribution_type(c) == Some("picture"@)
}

/// Whether a root child is a functional (non-picture) contribution.
pub open spec fn is_functional_contribution(c: XmlElem) -> bool {
    is_contribution_elem(c) && contribution_type(c) != Some("picture"@)
}

/// One functional contribution, dispatched on its `type`; a missing or
/// unrecognized type is a fatal error, never a silent skip.
pub open spec fn spec_contribution(c: XmlElem) -> Result<ContributionModel, PluginErrorModel> {
    match contribution_type(c) {
        None => Err(PluginErrorModel::UnknownContributionType),
        Some(t) => if t == "GenericStructure"@ {
            spec_generic_structure(c)
        } else if t == "road"@ {
            spec_road(c)
        } else {
            Err(PluginErrorModel::UnknownContributionType)
        },
    }
}

/// All functional contributions among `cs`, in document order; the first bad
/// one fails the package.
pub open spec fn spec_contributions(cs: Seq<XmlElem>) -> Result<
    Seq<ContributionModel>,
    PluginErrorModel,
>
    decreases cs.len(),
{
    if cs.len() == 0 {
        Ok(Seq::empty())
    } else {
        match spec_contributions(cs.drop_last()) {
            Err(e) => Err(e),
            Ok(front) => {
                let c = cs.last();
                if is_functional_contribution(c) {
                    match spec_contribution(c) {
                        Err(e) => Err(e),
                        Ok(one) => Ok(front.push(one)),
                    }
                } else {
                    Ok(front)
                }
            },
        }
    }
}

/// One picture-typed contribution's table entry: its `id` attribute and the
/// `src` of its nested picture element, both required.
pub open spec fn spec_picture_entry(c: XmlElem) -> Result<
    (Seq<char>, Seq<char>),
    PluginErrorModel,
> {
    match attrs_lookup(c.attrs@, "id"@) {
        None => Err(PluginErrorModel::MissingAttribute),
        Some(id) => match find_tag(c.children@, "picture"@) {
            None => Err(PluginErrorModel::MissingAttribute),
            Some(pic) => match attrs_lookup(pic.attrs@, "src"@) {
                None => Err(PluginErrorModel::MissingAttribute),
                Some(src) => Ok((id, src)),
            },
        },
    }
}

/// The picture-reference table: one entry per picture-typed contribution, in
/// document order, later entries overriding earlier ones on lookup.
pub open spec fn spec_pictures_table(cs: Seq<XmlElem>) -> Result<
    Seq<(Seq<char>, Seq<char>)>,
    PluginErrorModel,
>
    decreases cs.len(),
{
    if cs.len() == 0 {
        Ok(Seq::empty())
    } else {
        match spec_pictures_table(cs.drop_last()) {
            Err(e) => Err(e),
            Ok(front) => {
                let c = cs.last();
                if is_picture_contribution(c) {
                    match spec_picture_entry(c) {
                        Err(e) => Err(e),
                        Ok(entry) => Ok(front.push(entry)),
                    }
                } else {
                    Ok(front)
                }
            },
        }
    }
}

// ---------------------------------------------------------------------------
// Reference resolution
// ---------------------------------------------------------------------------

/// Resolves one contribution's image reference against the picture table: a
/// registered id is substituted by its path; an unregistered picture-id
/// fails the package; a plain path stays as it is.
pub open spec fn spec_resolve_one(
    table: Seq<(Seq<char>, Seq<char>)>,
    c: ContributionModel,
) -> Result<ContributionModel, PluginErrorModel> {
    match assoc_lookup(table, c.image_ref) {
        Some(path) => Ok(
            ContributionModel { image_ref: path, image_ref_is_id: false, ..c },
        ),
        None => if c.image_ref_is_id {
            Err(PluginErrorModel::UnresolvedReference)
        } else {
            Ok(c)
        },
    }
}

/// Resolves every contribution in order; the first unresolved reference
/// fails the package.
pub open spec fn spec_resolve(
    table: Seq<(Seq<char>, Seq<char>)>,
    cs: Seq<ContributionModel>,
) -> Result<Seq<ContributionModel>, PluginErrorModel>
    decreases cs.len(),
{
    if cs.len() == 0 {
        Ok(Seq::empty())
    } else {
        match spec_resolve(table, cs.drop_last()) {
            Err(e) => Err(e),
            Ok(front) => match spec_resolve_one(table, cs.last()) {
                Err(e) => Err(e),
                Ok(one) => Ok(front.push(one)),
            },
        }
    }
}

// ---------------------------------------------------------------------------
// Whole-document interpretation
// ---------------------------------------------------------------------------

/// The package a parsed document describes.  Without a `plug-in` descriptor
/// element the package is empty (a warning, not a failure); with one, title
/// and author are required, the picture table is built first, every
/// functional contribution is parsed in document order, and all references
/// are resolved.
pub open spec fn spec_package_of(filename: Seq<char>, doc: XmlElem) -> Result<
    PluginModel,
    PluginErrorModel,
> {
    match spec_find_plugin(doc) {
        None => Ok(
            PluginModel {
                filename,
                title: Seq::empty(),
                author: Seq::empty(),
                contributions: Seq::empty(),
            },
        ),
        Some(root) => {
            let md = spec_root_metadata(root.children@);
            match (assoc_lookup(md, "title"@), assoc_lookup(md, "author"@)) {
                (Some(title), Some(author)) => match spec_pictures_table(root.children@) {
                    Err(e) => Err(e),
                    Ok(table) => match spec_contributions(root.children@) {
                        Err(e) => Err(e),
                        Ok(cs) => match spec_resolve(table, cs) {
                            Err(e) => Err(e),
                            Ok(resolved) => Ok(
                                PluginModel { filename, title, author, contributions: resolved },
                            ),
                        },
                    },
                },
                _ => Err(PluginErrorModel::MissingMetadata),
            }
        },
    }
}

/// The package a manifest text describes: a syntax error carries the
/// document parser's diagnostic, anything else is `spec_package_of`.
pub open spec fn spec_parse_plugin(filename: Seq<char>, text: Seq<char>) -> Result<
    PluginModel,
    PluginErrorModel,
> {
    match xml_doc_of(text) {
        Err(diag) => Err(PluginErrorModel::MalformedDocument(diag)),
        Ok(doc) => spec_package_of(filename, doc),
    }
}

/// The package manifest bytes describe: decoded as UTF-8, as Shift-JIS when
/// that fails, and an encoding error when both fail.
pub open spec fn spec_load_plugin(filename: Seq<char>, bytes: Seq<u8>) -> Result<
    PluginModel,
    PluginErrorModel,
> {
    match utf8_decoded(bytes) {
        Some(text) => spec_parse_plugin(filename, text),
        None => match shift_jis_decoded(bytes) {
            Some(text) => spec_parse_plugin(filename, text),
            None => Err(PluginErrorModel::Encoding),
        },
    }
}


// ---------------------------------------------------------------------------
// Executable parser: metadata
// ---------------------------------------------------------------------------

/// The views of a sequence of (key, value) string pairs.
pub open spec fn pairs_view(entries: Seq<(String, String)>) -> Seq<(Seq<char>, Seq<char>)> {
    entries.map_values(|p: (String, String)| (p.0@, p.1@))
}

/// The models of a sequence of contributions.
pub open spec fn contributions_view(cs: Seq<Contribution>) -> Seq<ContributionModel> {
    cs.map_values(|c: Contribution| c@)
}

/// Looks `key` up among `entries`, later entries winning.
pub fn lookup_pairs(entries: &Vec<(String, String)>, key: &str) -> (r: Option<String>)
    ensures
        match r {
            Some(v) => assoc_lookup(pairs_view(entries@), key@) == Some(v@),
            None => assoc_lookup(pairs_view(entries@), key@) is None,
        },
{
    let mut i: usize = entries.len();
    proof {
        assert(pairs_view(entries@).subrange(0, i as int) =~= pairs_view(entries@));
    }
    while i > 0
        invariant
            0 <= i <= entries@.len(),
            assoc_lookup(pairs_view(entries@), key@) == assoc_lookup(
                pairs_view(entries@).subrange(0, i as int),
                key@,
            ),
        decreases i,
    {
        i = i - 1;
        let ghost prefix = pairs_view(entries@).subrange(0, i + 1);
        proof {
            assert(prefix.last() == pairs_view(entries@)[i as int]);
            assert(prefix.drop_last() =~= pairs_view(entries@).subrange(0, i as int));
        }
        if str_eq(entries[i].0.as_str(), key) {
            return Some(entries[i].1.clone());
        }
    }
    proof {
        assert(pairs_view(entries@).subrange(0, 0).len() == 0);
    }
    None
}

/// The trimmed metadata value of an element.
fn metadata_value_of(c: &XmlElem) -> (r: String)
    ensures
        r@ == metadata_value(*c),
{
    match &c.first_text {
        Some(t) => trim_str(t.as_str()),
        None => {
            let r = String::new();
            proof {
                assert(spec_trim(Seq::<char>::empty()) == Seq::<char>::empty());
            }
            r
        },
    }
}

/// Collects the metadata fields of a contribution element: leaf element
/// children keyed by tag, values trimmed.
pub fn parse_metadata(e: &XmlElem) -> (r: Vec<(String, String)>)
    ensures
        pairs_view(r@) == spec_metadata(e.children@),
{
    let n = e.children.len();
    let mut out: Vec<(String, String)> = Vec::new();
    let mut i: usize = 0;
    proof {
        assert(e.children@.subrange(0, 0).len() == 0);
        assert(pairs_view(out@) =~= spec_metadata(e.children@.subrange(0, 0)));
    }
    while i < n
        invariant
            0 <= i <= n,
            n == e.children@.len(),
            pairs_view(out@) == spec_metadata(e.children@.subrange(0, i as int)),
        decreases n - i,
    {
        let c = &e.children[i];
        proof {
            assert(e.children@.subrange(0, i + 1).drop_last() =~= e.children@.subrange(
                0,
                i as int,
            ));
            assert(e.children@.subrange(0, i + 1).last() == e.children@[i as int]);
        }
        if c.has_child_nodes && c.children.len() == 0 {
            let value = metadata_value_of(c);
            out.push((c.tag.clone(), value));
            proof {
                assert(pairs_view(out@) =~~= spec_metadata(e.children@.subrange(0, i + 1)));
            }
        } else {
            proof {
                assert(pairs_view(out@) =~~= spec_metadata(e.children@.subrange(0, i + 1)));
            }
        }
        i = i + 1;
    }
    proof {
        assert(e.children@.subrange(0, n as int) =~= e.children@);
    }
    out
}

/// Collects the root's metadata fields: element children not tagged
/// `contribution`, keyed by tag, values trimmed.
pub fn parse_root_metadata(e: &XmlElem) -> (r: Vec<(String, String)>)
    ensures
        pairs_view(r@) == spec_root_metadata(e.children@),
{
    let n = e.children.len();
    let mut out: Vec<(String, String)> = Vec::new();
    let mut i: usize = 0;
    proof {
        assert(e.children@.subrange(0, 0).len() == 0);
        assert(pairs_view(out@) =~= spec_root_metadata(e.children@.subrange(0, 0)));
    }
    while i < n
        invariant
            0 <= i <= n,
            n == e.children@.len(),
            pairs_view(out@) == spec_root_metadata(e.children@.subrange(0, i as int)),
        decreases n - i,
    {
        let c = &e.children[i];
        proof {
            assert(e.children@.subrange(0, i + 1).drop_last() =~= e.children@.subrange(
                0,
                i as int,
            ));
            assert(e.children@.subrange(0, i + 1).last() == e.children@[i as int]);
        }
        if !str_eq(c.tag.as_str(), "contribution") {
            let value = metadata_value_of(c);
            out.push((c.tag.clone(), value));
            proof {
                assert(pairs_view(out@) =~~= spec_root_metadata(e.children@.subrange(0, i + 1)));
            }
        } else {
            proof {
                assert(pairs_view(out@) =~~= spec_root_metadata(e.children@.subrange(0, i + 1)));
            }
        }
        i = i + 1;
    }
    proof {
        assert(e.children@.subrange(0, n as int) =~= e.children@);
    }
    out
}

// ---------------------------------------------------------------------------
// Executable parser: hue transforms
// ---------------------------------------------------------------------------

/// The channel a `from` attribute selects.
fn parse_channel_of(from: &str) -> (r: Option<ColorMappingChannel>)
    ensures
        r == spec_channel_of(from@),
{
    let parts = split_str(from, ',');
    let ghost sparts = spec_split(from@, ',');
    if parts.len() == 3 {
        proof {
            assert(parts@[0]@ == sparts[0]);
            assert(parts@[1]@ == sparts[1]);
            assert(parts@[2]@ == sparts[2]);
        }
        if str_eq(parts[0].as_str(), "*") {
            Some(ColorMappingChannel::Red)
        } else if str_eq(parts[1].as_str(), "*") {
            Some(ColorMappingChannel::Green)
        } else if str_eq(parts[2].as_str(), "*") {
            Some(ColorMappingChannel::Blue)
        } else {
            None
        }
    } else if parts.len() == 1 {
        if eq_ignore_case(from, "red") || eq_ignore_case(from, "r") {
            Some(ColorMappingChannel::Red)
        } else if eq_ignore_case(from, "green") || eq_ignore_case(from, "g") {
            Some(ColorMappingChannel::Green)
        } else if eq_ignore_case(from, "blue") || eq_ignore_case(from, "b") {
            Some(ColorMappingChannel::Blue)
        } else {
            None
        }
    } else {
        None
    }
}

/// One 0-255 channel value.
fn parse_channel_val(s: &str) -> (r: Option<u8>)
    ensures
        r == spec_channel_val(s@),
{
    match parse_i32_str(s) {
        Some(v) => if 0 <= v && v <= 255 {
            Some(v as u8)
        } else {
            None
        },
        None => None,
    }
}

/// The target color of a `to` attribute.
fn parse_target_color_for_mapping(to: &str) -> (r: Option<Rgb>)
    ensures
        r == spec_target_of(to@),
{
    let parts = split_str(to, ',');
    let ghost sparts = spec_split(to@, ',');
    if parts.len() != 3 {
        return None;
    }
    proof {
        assert(parts@[0]@ == sparts[0]);
        assert(parts@[1]@ == sparts[1]);
        assert(parts@[2]@ == sparts[2]);
    }
    let r = parse_channel_val(parts[0].as_str());
    let g = parse_channel_val(parts[1].as_str());
    let b = parse_channel_val(parts[2].as_str());
    match (r, g, b) {
        (Some(r), Some(g), Some(b)) => Some(Rgb { r, g, b }),
        _ => None,
    }
}

/// The mapping one hue-transform node declares, if its shape is right.
fn parse_hue_mapping(c: &XmlElem) -> (r: Option<ColorMapping>)
    ensures
        r == spec_hue_mapping(*c),
{
    let m = match find_child_tag(c, "map") {
        None => {
            return None;
        },
        Some(m) => m,
    };
    let from = match get_attr(m, "from") {
        None => {
            return None;
        },
        Some(v) => v,
    };
    let to = match get_attr(m, "to") {
        None => {
            return None;
        },
        Some(v) => v,
    };
    let channel = parse_channel_of(from.as_str());
    let target = parse_target_color_for_mapping(to.as_str());
    match (channel, target) {
        (Some(channel), Some(target)) => Some(ColorMapping { channel, target }),
        _ => None,
    }
}

/// All mappings the hue-transform children of `e` declare, in document
/// order; nodes with a bad shape are skipped.
pub fn parse_hue_transform_nodes(e: &XmlElem) -> (r: Vec<ColorMapping>)
    ensures
        r@ == spec_hue_mappings(e.children@),
{
    let n = e.children.len();
    let mut out: Vec<ColorMapping> = Vec::new();
    let mut i: usize = 0;
    proof {
        assert(e.children@.subrange(0, 0).len() == 0);
        assert(out@ =~= spec_hue_mappings(e.children@.subrange(0, 0)));
    }
    while i < n
        invariant
            0 <= i <= n,
            n == e.children@.len(),
            out@ == spec_hue_mappings(e.children@.subrange(0, i as int)),
        decreases n - i,
    {
        let c = &e.children[i];
        proof {
            assert(e.children@.subrange(0, i + 1).drop_last() =~= e.children@.subrange(
                0,
                i as int,
            ));
            assert(e.children@.subrange(0, i + 1).last() == e.children@[i as int]);
        }
        let is_hue = if str_eq(c.tag.as_str(), "spriteType") {
            match get_attr(c, "name") {
                Some(v) => str_eq(v.as_str(), "hueTransform"),
                None => false,
            }
        } else {
            false
        };
        if is_hue {
            match parse_hue_mapping(c) {
                Some(m) => {
                    out.push(m);
                },
                None => {},
            }
        }
        proof {
            assert(out@ =~= spec_hue_mappings(e.children@.subrange(0, i + 1)));
        }
        i = i + 1;
    }
    proof {
        assert(e.children@.subrange(0, n as int) =~= e.children@);
    }
    out
}


// ---------------------------------------------------------------------------
// Executable parser: sprites and multistorey sets
// ---------------------------------------------------------------------------

/// The origin pair and offset of a sprite-shaped element.
pub fn parse_origin_and_offset(c: &XmlElem) -> (r: Result<(i32, i32, i32), PluginError>)
    ensures
        match r {
            Ok(t) => spec_origin_offset(*c) == Ok::<(i32, i32, i32), PluginErrorModel>(t),
            Err(err) => spec_origin_offset(*c) == Err::<(i32, i32, i32), PluginErrorModel>(err@),
        },
{
    let origin = match get_attr(c, "origin") {
        None => {
            return Err(PluginError::MissingAttributeError);
        },
        Some(v) => v,
    };
    let parts = split_str(origin.as_str(), ',');
    if parts.len() < 2 {
        return Err(PluginError::MalformedContributionError);
    }
    proof {
        assert(parts@[0]@ == spec_split(origin@, ',')[0]);
        assert(parts@[1]@ == spec_split(origin@, ',')[1]);
    }
    let t0 = trim_str(parts[0].as_str());
    let ox = match parse_i32_str(t0.as_str()) {
        Some(v) => v,
        None => 0,
    };
    let t1 = trim_str(parts[1].as_str());
    let oy = match parse_i32_str(t1.as_str()) {
        Some(v) => v,
        None => 0,
    };
    let off_attr = match get_attr(c, "offset") {
        None => {
            return Err(PluginError::MissingAttributeError);
        },
        Some(v) => v,
    };
    match parse_i32_str(off_attr.as_str()) {
        None => Err(PluginError::MalformedContributionError),
        Some(off) => Ok((ox, oy, off)),
    }
}

proof fn lemma_sprites_err_prefix(cs: Seq<XmlElem>, i: int)
    requires
        0 <= i <= cs.len(),
        spec_sprites(cs.subrange(0, i)) is Err,
    ensures
        spec_sprites(cs) == spec_sprites(cs.subrange(0, i)),
    decreases cs.len() - i,
{
    if i < cs.len() {
        assert(cs.subrange(0, i + 1).drop_last() =~= cs.subrange(0, i));
        assert(spec_sprites(cs.subrange(0, i + 1)) == spec_sprites(cs.subrange(0, i)));
        lemma_sprites_err_prefix(cs, i + 1);
    } else {
        assert(cs.subrange(0, cs.len() as int) =~= cs);
    }
}

/// Collects the flat sprites of a `GenericStructure` contribution, with the
/// image reference their picture elements agree on.
pub fn parse_generic_structure_sprite(e: &XmlElem) -> (r: Result<
    (Vec<ContributionSprite>, String),
    PluginError,
>)
    ensures
        match r {
            Ok(p) => spec_sprites(e.children@) == Ok::<
                (Seq<ContributionSprite>, Seq<char>),
                PluginErrorModel,
            >((p.0@, p.1@)),
            Err(err) => spec_sprites(e.children@) == Err::<
                (Seq<ContributionSprite>, Seq<char>),
                PluginErrorModel,
            >(err@),
        },
{
    let n = e.children.len();
    let mut sprites: Vec<ContributionSprite> = Vec::new();
    let mut iref = String::new();
    let mut i: usize = 0;
    proof {
        assert(sprites@ =~= Seq::<ContributionSprite>::empty());
        assert(iref@ =~= Seq::<char>::empty());
        assert(e.children@.subrange(0, 0).len() == 0);
    }
    while i < n
        invariant
            0 <= i <= n,
            n == e.children@.len(),
            spec_sprites(e.children@.subrange(0, i as int)) == Ok::<
                (Seq<ContributionSprite>, Seq<char>),
                PluginErrorModel,
            >((sprites@, iref@)),
        decreases n - i,
    {
        let c = &e.children[i];
        proof {
            assert(e.children@.subrange(0, i + 1).drop_last() =~= e.children@.subrange(
                0,
                i as int,
            ));
            assert(e.children@.subrange(0, i + 1).last() == e.children@[i as int]);
        }
        if str_eq(c.tag.as_str(), "sprite") {
            let (ox, oy, off) = match parse_origin_and_offset(c) {
                Err(err) => {
                    proof {
                        lemma_sprites_err_prefix(e.children@, i + 1);
                    }
                    return Err(err);
                },
                Ok(t) => t,
            };
            let sp = ContributionSprite { origin_x: ox, origin_y: oy, offset: off, opposite: false };
            let pic = match find_child_tag(c, "picture") {
                None => {
                    proof {
                        lemma_sprites_err_prefix(e.children@, i + 1);
                    }
                    return Err(PluginError::MissingAttributeError);
                },
                Some(p) => p,
            };
            match get_attr(pic, "ref") {
                None => {
                    sprites.push(sp);
                },
                Some(x) => {
                    if iref.as_str().is_empty() {
                        sprites.push(sp);
                        iref = x.clone();
                    } else if str_eq(x.as_str(), iref.as_str()) {
                        sprites.push(sp);
                    } else {
                        proof {
                            lemma_sprites_err_prefix(e.children@, i + 1);
                        }
                        return Err(PluginError::MalformedContributionError);
                    }
                },
            }
        }
        proof {
            assert(spec_sprites(e.children@.subrange(0, i + 1)) =~~= Ok::<
                (Seq<ContributionSprite>, Seq<char>),
                PluginErrorModel,
            >((sprites@, iref@)));
        }
        i = i + 1;
    }
    proof {
        assert(e.children@.subrange(0, n as int) =~= e.children@);
    }
    Ok((sprites, iref))
}

/// One tier of a multistorey set.
fn parse_multi_part<'a>(c: &'a XmlElem, part: &str) -> (r: Result<
    (ContributionSprite, &'a XmlElem),
    PluginError,
>)
    ensures
        match r {
            Ok(p) => spec_multi_part(*c, part@) == Ok::<
                (ContributionSprite, XmlElem),
                PluginErrorModel,
            >((p.0, *p.1)),
            Err(err) => spec_multi_part(*c, part@) == Err::<
                (ContributionSprite, XmlElem),
                PluginErrorModel,
            >(err@),
        },
{
    let node = match find_child_tag(c, part) {
        None => {
            return Err(PluginError::MalformedContributionError);
        },
        Some(node) => node,
    };
    match parse_origin_and_offset(node) {
        Err(err) => Err(err),
        Ok((ox, oy, off)) => Ok(
            (
                ContributionSprite { origin_x: ox, origin_y: oy, offset: off, opposite: false },
                node,
            ),
        ),
    }
}

proof fn lemma_multis_err_prefix(cs: Seq<XmlElem>, i: int)
    requires
        0 <= i <= cs.len(),
        spec_multis(cs.subrange(0, i)) is Err,
    ensures
        spec_multis(cs) == spec_multis(cs.subrange(0, i)),
    decreases cs.len() - i,
{
    if i < cs.len() {
        assert(cs.subrange(0, i + 1).drop_last() =~= cs.subrange(0, i));
        assert(spec_multis(cs.subrange(0, i + 1)) == spec_multis(cs.subrange(0, i)));
        lemma_multis_err_prefix(cs, i + 1);
    } else {
        assert(cs.subrange(0, cs.len() as int) =~= cs);
    }
}

/// Collects the multistorey sets of a `GenericStructure` contribution, with
/// the image reference their top tiers agree on.
pub fn parse_generic_structure_multi(e: &XmlElem) -> (r: Result<
    (Vec<ContributionMultistorey>, String),
    PluginError,
>)
    ensures
        match r {
            Ok(p) => spec_multis(e.children@) == Ok::<
                (Seq<ContributionMultistorey>, Seq<char>),
                PluginErrorModel,
            >((p.0@, p.1@)),
            Err(err) => spec_multis(e.children@) == Err::<
                (Seq<ContributionMultistorey>, Seq<char>),
                PluginErrorModel,
            >(err@),
        },
{
    let n = e.children.len();
    let mut multis: Vec<ContributionMultistorey> = Vec::new();
    let mut iref = String::new();
    let mut i: usize = 0;
    proof {
        assert(multis@ =~= Seq::<ContributionMultistorey>::empty());
        assert(iref@ =~= Seq::<char>::empty());
        assert(e.children@.subrange(0, 0).len() == 0);
    }
    while i < n
        invariant
            0 <= i <= n,
            n == e.children@.len(),
            spec_multis(e.children@.subrange(0, i as int)) == Ok::<
                (Seq<ContributionMultistorey>, Seq<char>),
                PluginErrorModel,
            >((multis@, iref@)),
        decreases n - i,
    {
        let c = &e.children[i];
        proof {
            assert(e.children@.subrange(0, i + 1).drop_last() =~= e.children@.subrange(
                0,
                i as int,
            ));
            assert(e.children@.subrange(0, i + 1).last() == e.children@[i as int]);
        }
        if str_eq(c.tag.as_str(), "pictures") {
            let (top, top_node) = match parse_multi_part(c, "top") {
                Err(err) => {
                    proof {
                        lemma_multis_err_prefix(e.children@, i + 1);
                    }
                    return Err(err);
                },
                Ok(p) => p,
            };
            let (middle, _middle_node) = match parse_multi_part(c, "middle") {
                Err(err) => {
                    proof {
                        lemma_multis_err_prefix(e.children@, i + 1);
                    }
                    return Err(err);
                },
                Ok(p) => p,
            };
            let (bottom, _bottom_node) = match parse_multi_part(c, "bottom") {
                Err(err) => {
                    proof {
                        lemma_multis_err_prefix(e.children@, i + 1);
                    }
                    return Err(err);
                },
                Ok(p) => p,
            };
            let pic = match find_child_tag(top_node, "picture") {
                None => {
                    proof {
                        lemma_multis_err_prefix(e.children@, i + 1);
                    }
                    return Err(PluginError::MissingAttributeError);
                },
                Some(p) => p,
            };
            let joined = match get_attr(pic, "ref") {
                None => {
                    multis.push(ContributionMultistorey { top, middle, bottom });
                    true
                },
                Some(x) => {
                    if iref.as_str().is_empty() {
                        multis.push(ContributionMultistorey { top, middle, bottom });
                        iref = x.clone();
                        true
                    } else if str_eq(x.as_str(), iref.as_str()) {
                        multis.push(ContributionMultistorey { top, middle, bottom });
                        true
                    } else {
                        false
                    }
                },
            };
            if !joined {
                proof {
                    lemma_multis_err_prefix(e.children@, i + 1);
                }
                return Err(PluginError::MalformedContributionError);
            }
        }
        proof {
            assert(spec_multis(e.children@.subrange(0, i + 1)) =~~= Ok::<
                (Seq<ContributionMultistorey>, Seq<char>),
                PluginErrorModel,
            >((multis@, iref@)));
        }
        i = i + 1;
    }
    proof {
        assert(e.children@.subrange(0, n as int) =~= e.children@);
    }
    Ok((multis, iref))
}


// ---------------------------------------------------------------------------
// Executable parser: contribution kinds
// ---------------------------------------------------------------------------

/// Closes a generic-structure parse from its collected pieces.
fn parse_generic_finish(
    md: &Vec<(String, String)>,
    color_mappings: Vec<ColorMapping>,
    image_data: Vec<ContributionImageData>,
    iref: String,
) -> (r: Result<Contribution, PluginError>)
    ensures
        contribution_res_model(r) == spec_generic_finish(
            pairs_view(md@),
            color_mappings@,
            image_data@,
            iref@,
        ),
{
    if iref.as_str().is_empty() {
        return Err(PluginError::MissingAttributeError);
    }
    let size_str = match lookup_pairs(md, "size") {
        None => {
            return Err(PluginError::MissingMetadataError);
        },
        Some(v) => v,
    };
    let parts = split_str(size_str.as_str(), ',');
    if parts.len() < 2 {
        return Err(PluginError::MalformedContributionError);
    }
    proof {
        assert(parts@[0]@ == spec_split(size_str@, ',')[0]);
        assert(parts@[1]@ == spec_split(size_str@, ',')[1]);
    }
    let size_x = match parse_i32_str(parts[1].as_str()) {
        Some(v) => v,
        None => 0,
    };
    let size_y = match parse_i32_str(parts[0].as_str()) {
        Some(v) => v,
        None => 0,
    };
    let height = match lookup_pairs(md, "height") {
        None => 0,
        Some(h) => match parse_i32_str(h.as_str()) {
            Some(v) => v,
            None => 0,
        },
    };
    let c = Contribution {
        size: Tile { x: size_x, y: size_y, z: height },
        image_ref: iref,
        image_ref_is_id: true,
        image_data,
        color_mappings,
    };
    proof {
        assert(contribution_res_model(Ok(c)) =~~= spec_generic_finish(
            pairs_view(md@),
            color_mappings@,
            image_data@,
            iref@,
        ));
    }
    Ok(c)
}

/// Parses a `GenericStructure` contribution.
pub fn parse_generic_structure_contribution(e: &XmlElem) -> (r: Result<Contribution, PluginError>)
    ensures
        contribution_res_model(r) == spec_generic_structure(*e),
{
    let md = parse_metadata(e);
    let mut color_mappings = parse_hue_transform_nodes(e);
    if color_mappings.len() == 0 {
        color_mappings.push(
            ColorMapping {
                channel: ColorMappingChannel::NoRecolor,
                target: Rgb { r: 0, g: 0, b: 0 },
            },
        );
        proof {
            assert(color_mappings@ =~= spec_color_mappings(e.children@));
        }
    }
    let (sprites, sref) = match parse_generic_structure_sprite(e) {
        Err(err) => {
            return Err(err);
        },
        Ok(p) => p,
    };
    let (multis, mref) = match parse_generic_structure_multi(e) {
        Err(err) => {
            return Err(err);
        },
        Ok(p) => p,
    };
    if sprites.len() >= 1 && multis.len() == 0 {
        let mut image_data: Vec<ContributionImageData> = Vec::new();
        let mut i: usize = 0;
        while i < sprites.len()
            invariant
                0 <= i <= sprites@.len(),
                image_data@.len() == i,
                forall|j: int|
                    0 <= j < i ==> image_data@[j] == ContributionImageData::ContributionSprite(
                        sprites@[j],
                    ),
            decreases sprites@.len() - i,
        {
            image_data.push(ContributionImageData::ContributionSprite(sprites[i]));
            i = i + 1;
        }
        proof {
            assert(image_data@ =~= sprites@.map_values(
                |s: ContributionSprite| ContributionImageData::ContributionSprite(s),
            ));
        }
        parse_generic_finish(&md, color_mappings, image_data, sref)
    } else if sprites.len() == 0 && multis.len() == 1 {
        let mut image_data: Vec<ContributionImageData> = Vec::new();
        let mut i: usize = 0;
        while i < multis.len()
            invariant
                0 <= i <= multis@.len(),
                image_data@.len() == i,
                forall|j: int|
                    0 <= j < i ==> image_data@[j]
                        == ContributionImageData::ContributionMultistorey(multis@[j]),
            decreases multis@.len() - i,
        {
            image_data.push(ContributionImageData::ContributionMultistorey(multis[i]));
            i = i + 1;
        }
        proof {
            assert(image_data@ =~= multis@.map_values(
                |m: ContributionMultistorey| ContributionImageData::ContributionMultistorey(m),
            ));
        }
        parse_generic_finish(&md, color_mappings, image_data, mref)
    } else {
        Err(PluginError::MalformedContributionError)
    }
}

/// Parses a `road` contribution.
pub fn parse_road_contribution(e: &XmlElem) -> (r: Result<Contribution, PluginError>)
    ensures
        contribution_res_model(r) == spec_road(*e),
{
    let pic = match find_child_tag(e, "picture") {
        None => {
            return Err(PluginError::MalformedContributionError);
        },
        Some(p) => p,
    };
    let src = match get_attr(pic, "src") {
        None => {
            return Err(PluginError::MissingAttributeError);
        },
        Some(v) => v,
    };
    let c = Contribution {
        size: Tile { x: 1, y: 1, z: 1 },
        image_ref: src.clone(),
        image_ref_is_id: false,
        image_data: Vec::new(),
        color_mappings: Vec::new(),
    };
    proof {
        assert(contribution_res_model(Ok(c)) =~~= spec_road(*e));
    }
    Ok(c)
}

/// Parses one functional contribution, dispatched on its `type` attribute.
pub fn parse_contribution(c: &XmlElem) -> (r: Result<Contribution, PluginError>)
    ensures
        contribution_res_model(r) == spec_contribution(*c),
{
    let t = match get_attr(c, "type") {
        None => {
            return Err(PluginError::UnknownContributionTypeError);
        },
        Some(v) => v,
    };
    if str_eq(t.as_str(), "GenericStructure") {
        parse_generic_structure_contribution(c)
    } else if str_eq(t.as_str(), "road") {
        parse_road_contribution(c)
    } else {
        Err(PluginError::UnknownContributionTypeError)
    }
}

/// Parses one picture-typed contribution into its table entry.
pub fn parse_picture_contribution(c: &XmlElem) -> (r: Result<(String, String), PluginError>)
    ensures
        match r {
            Ok(p) => spec_picture_entry(*c) == Ok::<(Seq<char>, Seq<char>), PluginErrorModel>(
                (p.0@, p.1@),
            ),
            Err(err) => spec_picture_entry(*c) == Err::<(Seq<char>, Seq<char>), PluginErrorModel>(
                err@,
            ),
        },
{
    let id = match get_attr(c, "id") {
        None => {
            return Err(PluginError::MissingAttributeError);
        },
        Some(v) => v,
    };
    let pic = match find_child_tag(c, "picture") {
        None => {
            return Err(PluginError::MissingAttributeError);
        },
        Some(p) => p,
    };
    match get_attr(pic, "src") {
        None => Err(PluginError::MissingAttributeError),
        Some(src) => Ok((id.clone(), src.clone())),
    }
}

// ---------------------------------------------------------------------------
// Executable parser: whole document
// ---------------------------------------------------------------------------

proof fn lemma_pictures_err_prefix(cs: Seq<XmlElem>, i: int)
    requires
        0 <= i <= cs.len(),
        spec_pictures_table(cs.subrange(0, i)) is Err,
    ensures
        spec_pictures_table(cs) == spec_pictures_table(cs.subrange(0, i)),
    decreases cs.len() - i,
{
    if i < cs.len() {
        assert(cs.subrange(0, i + 1).drop_last() =~= cs.subrange(0, i));
        assert(spec_pictures_table(cs.subrange(0, i + 1)) == spec_pictures_table(
            cs.subrange(0, i),
        ));
        lemma_pictures_err_prefix(cs, i + 1);
    } else {
        assert(cs.subrange(0, cs.len() as int) =~= cs);
    }
}

/// Builds the picture-reference table from the root's picture-typed
/// contributions, in document order.
pub fn build_pictures_table(root: &XmlElem) -> (r: Result<Vec<(String, String)>, PluginError>)
    ensures
        match r {
            Ok(t) => spec_pictures_table(root.children@) == Ok::<
                Seq<(Seq<char>, Seq<char>)>,
                PluginErrorModel,
            >(pairs_view(t@)),
            Err(err) => spec_pictures_table(root.children@) == Err::<
                Seq<(Seq<char>, Seq<char>)>,
                PluginErrorModel,
            >(err@),
        },
{
    let n = root.children.len();
    let mut out: Vec<(String, String)> = Vec::new();
    let mut i: usize = 0;
    proof {
        assert(root.children@.subrange(0, 0).len() == 0);
        assert(pairs_view(out@) =~= Seq::<(Seq<char>, Seq<char>)>::empty());
    }
    while i < n
        invariant
            0 <= i <= n,
            n == root.children@.len(),
            spec_pictures_table(root.children@.subrange(0, i as int)) == Ok::<
                Seq<(Seq<char>, Seq<char>)>,
                PluginErrorModel,
            >(pairs_view(out@)),
        decreases n - i,
    {
        let c = &root.children[i];
        proof {
            assert(root.children@.subrange(0, i + 1).drop_last() =~= root.children@.subrange(
                0,
                i as int,
            ));
            assert(root.children@.subrange(0, i + 1).last() == root.children@[i as int]);
        }
        let is_picture = if str_eq(c.tag.as_str(), "contribution") {
            match get_attr(c, "type") {
                Some(v) => str_eq(v.as_str(), "picture"),
                None => false,
            }
        } else {
            false
        };
        if is_picture {
            match parse_picture_contribution(c) {
                Err(err) => {
                    proof {
                        lemma_pictures_err_prefix(root.children@, i + 1);
                    }
                    return Err(err);
                },
                Ok(entry) => {
                    let ghost prev = out@;
                    let ghost entry_view = (entry.0@, entry.1@);
                    out.push(entry);
                    proof {
                        assert(out@ =~= prev.push(entry));
                        assert(pairs_view(out@) =~~= pairs_view(prev).push(entry_view));
                    }
                },
            }
        }
        proof {
            assert(spec_pictures_table(root.children@.subrange(0, i + 1)) =~~= Ok::<
                Seq<(Seq<char>, Seq<char>)>,
                PluginErrorModel,
            >(pairs_view(out@)));
        }
        i = i + 1;
    }
    proof {
        assert(root.children@.subrange(0, n as int) =~= root.children@);
    }
    Ok(out)
}

proof fn lemma_contributions_err_prefix(cs: Seq<XmlElem>, i: int)
    requires
        0 <= i <= cs.len(),
        spec_contributions(cs.subrange(0, i)) is Err,
    ensures
        spec_contributions(cs) == spec_contributions(cs.subrange(0, i)),
    decreases cs.len() - i,
{
    if i < cs.len() {
        assert(cs.subrange(0, i + 1).drop_last() =~= cs.subrange(0, i));
        assert(spec_contributions(cs.subrange(0, i + 1)) == spec_contributions(
            cs.subrange(0, i),
        ));
        lemma_contributions_err_prefix(cs, i + 1);
    } else {
        assert(cs.subrange(0, cs.len() as int) =~= cs);
    }
}

/// Parses every functional contribution of the root, in document order.
pub fn collect_contributions(root: &XmlElem) -> (r: Result<Vec<Contribution>, PluginError>)
    ensures
        match r {
            Ok(cs) => spec_contributions(root.children@) == Ok::<
                Seq<ContributionModel>,
                PluginErrorModel,
            >(contributions_view(cs@)),
            Err(err) => spec_contributions(root.children@) == Err::<
                Seq<ContributionModel>,
                PluginErrorModel,
            >(err@),
        },
{
    let n = root.children.len();
    let mut out: Vec<Contribution> = Vec::new();
    let mut i: usize = 0;
    proof {
        assert(root.children@.subrange(0, 0).len() == 0);
        assert(contributions_view(out@) =~= Seq::<ContributionModel>::empty());
    }
    while i < n
        invariant
            0 <= i <= n,
            n == root.children@.len(),
            spec_contributions(root.children@.subrange(0, i as int)) == Ok::<
                Seq<ContributionModel>,
                PluginErrorModel,
            >(contributions_view(out@)),
        decreases n - i,
    {
        let c = &root.children[i];
        proof {
            assert(root.children@.subrange(0, i + 1).drop_last() =~= root.children@.subrange(
                0,
                i as int,
            ));
            assert(root.children@.subrange(0, i + 1).last() == root.children@[i as int]);
        }
        let is_functional = if str_eq(c.tag.as_str(), "contribution") {
            match get_attr(c, "type") {
                Some(v) => !str_eq(v.as_str(), "picture"),
                None => true,
            }
        } else {
            false
        };
        if is_functional {
            match parse_contribution(c) {
                Err(err) => {
                    proof {
                        lemma_contributions_err_prefix(root.children@, i + 1);
                    }
                    return Err(err);
                },
                Ok(one) => {
                    let ghost prev = out@;
                    let ghost one_view = one@;
                    out.push(one);
                    proof {
                        assert(out@ =~= prev.push(one));
                        assert(contributions_view(out@) =~~= contributions_view(prev).push(
                            one_view,
                        ));
                    }
                },
            }
        }
        proof {
            assert(spec_contributions(root.children@.subrange(0, i + 1)) =~~= Ok::<
                Seq<ContributionModel>,
                PluginErrorModel,
            >(contributions_view(out@)));
        }
        i = i + 1;
    }
    proof {
        assert(root.children@.subrange(0, n as int) =~= root.children@);
    }
    Ok(out)
}

proof fn lemma_resolve_err_prefix(
    table: Seq<(Seq<char>, Seq<char>)>,
    cs: Seq<ContributionModel>,
    i: int,
)
    requires
        0 <= i <= cs.len(),
        spec_resolve(table, cs.subrange(0, i)) is Err,
    ensures
        spec_resolve(table, cs) == spec_resolve(table, cs.subrange(0, i)),
    decreases cs.len() - i,
{
    if i < cs.len() {
        assert(cs.subrange(0, i + 1).drop_last() =~= cs.subrange(0, i));
        assert(spec_resolve(table, cs.subrange(0, i + 1)) == spec_resolve(
            table,
            cs.subrange(0, i),
        ));
        lemma_resolve_err_prefix(table, cs, i + 1);
    } else {
        assert(cs.subrange(0, cs.len() as int) =~= cs);
    }
}

/// Resolves every contribution's image reference against the picture table.
/// A registered id becomes its path; an unregistered picture-id fails the
/// whole package; a direct path is kept.
pub fn resolve_contribution_refs(
    table: &Vec<(String, String)>,
    contributions: Vec<Contribution>,
) -> (r: Result<Vec<Contribution>, PluginError>)
    ensures
        match r {
            Ok(out) => spec_resolve(pairs_view(table@), contributions_view(contributions@))
                == Ok::<Seq<ContributionModel>, PluginErrorModel>(contributions_view(out@)),
            Err(err) => spec_resolve(pairs_view(table@), contributions_view(contributions@))
                == Err::<Seq<ContributionModel>, PluginErrorModel>(err@),
        },
{
    let ghost orig = contributions_view(contributions@);
    let mut rest = contributions;
    let mut out: Vec<Contribution> = Vec::new();
    let mut i: usize = 0;
    let n = rest.len();
    proof {
        assert(orig.subrange(0, 0).len() == 0);
        assert(contributions_view(out@) =~= Seq::<ContributionModel>::empty());
        assert(contributions_view(rest@) =~= orig.subrange(0, n as int));
    }
    while i < n
        invariant
            0 <= i <= n,
            n == orig.len(),
            orig == contributions_view(contributions@),
            contributions_view(rest@) == orig.subrange(i as int, n as int),
            spec_resolve(pairs_view(table@), orig.subrange(0, i as int)) == Ok::<
                Seq<ContributionModel>,
                PluginErrorModel,
            >(contributions_view(out@)),
        decreases n - i,
    {
        proof {
            assert(orig.subrange(0, i + 1).drop_last() =~= orig.subrange(0, i as int));
            assert(orig.subrange(0, i + 1).last() == orig[i as int]);
            assert(contributions_view(rest@).len() == rest@.len());
            assert(rest@.len() == n - i);
            assert(contributions_view(rest@)[0] == orig[i as int]);
            assert(rest@[0]@ == orig[i as int]);
        }
        let ghost rest_prev = rest@;
        let mut c = rest.remove(0);
        proof {
            assert(c == rest_prev[0]);
            assert(c@ == orig[i as int]);
            assert(rest@ =~= rest_prev.drop_first());
            assert(contributions_view(rest@).len() == orig.subrange(i + 1, n as int).len());
            assert forall|j: int| 0 <= j < contributions_view(rest@).len() implies
                contributions_view(rest@)[j] == orig.subrange(i + 1, n as int)[j] by {
                assert(rest@[j] == rest_prev[j + 1]);
                assert(contributions_view(rest@)[j] == rest@[j]@);
                assert(contributions_view(rest_prev)[j + 1] == rest_prev[j + 1]@);
                assert(contributions_view(rest_prev)[j + 1] == orig.subrange(i as int, n as int)[
                    j + 1
                ]);
            };
            assert(contributions_view(rest@) =~= orig.subrange(i + 1, n as int));
        }
        match lookup_pairs(table, c.image_ref.as_str()) {
            Some(path) => {
                c.image_ref = path;
                c.image_ref_is_id = false;
            },
            None => {
                if c.image_ref_is_id {
                    proof {
                        lemma_resolve_err_prefix(pairs_view(table@), orig, i + 1);
                    }
                    return Err(PluginError::UnresolvedReferenceError);
                }
            },
        }
        let ghost prev = out@;
        let ghost c_view = c@;
        out.push(c);
        proof {
            assert(out@ =~= prev.push(c));
            assert(contributions_view(out@) =~~= contributions_view(prev).push(c_view));
            assert(spec_resolve(pairs_view(table@), orig.subrange(0, i + 1)) =~~= Ok::<
                Seq<ContributionModel>,
                PluginErrorModel,
            >(contributions_view(out@)));
        }
        i = i + 1;
    }
    proof {
        assert(orig.subrange(0, n as int) =~= orig);
    }
    Ok(out)
}

/// Parses one decoded manifest document into a package.  A document with no
/// `plug-in` element yields an empty package; one with a root must carry
/// title and author, well-shaped contributions and resolvable references.
pub fn parse_plugin_xml(filename: String, data: &str) -> (r: Result<Plugin, PluginError>)
    ensures
        plugin_res_model(r) == spec_parse_plugin(filename@, data@),
{
    let doc = match parse_document(data) {
        Err(diag) => {
            return Err(PluginError::MalformedDocumentError(diag));
        },
        Ok(doc) => doc,
    };
    let root = match find_plugin_elem(&doc) {
        None => {
            let p = Plugin {
                filename,
                title: String::new(),
                author: String::new(),
                contributions: Vec::new(),
            };
            proof {
                assert(p@ =~~= PluginModel {
                    filename: p.filename@,
                    title: Seq::<char>::empty(),
                    author: Seq::<char>::empty(),
                    contributions: Seq::<ContributionModel>::empty(),
                });
            }
            return Ok(p);
        },
        Some(root) => root,
    };
    let md = parse_root_metadata(root);
    let title = match lookup_pairs(&md, "title") {
        None => {
            return Err(PluginError::MissingMetadataError);
        },
        Some(v) => v,
    };
    let author = match lookup_pairs(&md, "author") {
        None => {
            return Err(PluginError::MissingMetadataError);
        },
        Some(v) => v,
    };
    let table = match build_pictures_table(root) {
        Err(err) => {
            return Err(err);
        },
        Ok(t) => t,
    };
    let contributions = match collect_contributions(root) {
        Err(err) => {
            return Err(err);
        },
        Ok(cs) => cs,
    };
    let resolved = match resolve_contribution_refs(&table, contributions) {
        Err(err) => {
            return Err(err);
        },
        Ok(cs) => cs,
    };
    let p = Plugin { filename, title, author, contributions: resolved };
    proof {
        assert(plugin_res_model(Ok(p)) =~~= spec_parse_plugin(p.filename@, data@));
    }
    Ok(p)
}

/// Loads one package from raw manifest bytes: decoded as UTF-8, as
/// Shift-JIS when that fails, with an encoding error when both fail.
pub fn load_plugin(filename: String, bytes: &Vec<u8>) -> (r: Result<Plugin, PluginError>)
    ensures
        plugin_res_model(r) == spec_load_plugin(filename@, bytes@),
{
    match decode_utf8(bytes) {
        Some(text) => parse_plugin_xml(filename, text.as_str()),
        None => match decode_shift_jis(bytes) {
            Some(text) => parse_plugin_xml(filename, text.as_str()),
            None => Err(PluginError::EncodingError),
        },
    }
}


// ---------------------------------------------------------------------------
// Laws
// ---------------------------------------------------------------------------

/// Law: parsing is deterministic.  Two loads of the same filename and the
/// same manifest bytes describe the same package — the same title and
/// author, and the same contributions in document order — or fail with the
/// same error.
pub proof fn lemma_load_plugin_deterministic(
    filename: Seq<char>,
    bytes: Seq<u8>,
    r1: Result<Plugin, PluginError>,
    r2: Result<Plugin, PluginError>,
)
    requires
        plugin_res_model(r1) == spec_load_plugin(filename, bytes),
        plugin_res_model(r2) == spec_load_plugin(filename, bytes),
    ensures
        plugin_res_model(r1) == plugin_res_model(r2),
{
}

/// Law: a contribution under which no usable hue-transform node was declared
/// gets exactly one color mapping, the passthrough one (`NoRecolor`), so its
/// normalization yields exactly one drawable per image variant.
pub proof fn lemma_no_hue_transforms_default_mapping(cs: Seq<XmlElem>)
    requires
        spec_hue_mappings(cs).len() == 0,
    ensures
        spec_color_mappings(cs) == seq![default_mapping()],
        spec_color_mappings(cs).len() == 1,
        spec_color_mappings(cs)[0].channel == ColorMappingChannel::NoRecolor,
{
}

/// Law: resolving a contribution whose image reference is a picture-id
/// substitutes the registered path, and fails the package load with an
/// unresolved-reference error when the id was never registered.
pub proof fn lemma_resolve_reference(table: Seq<(Seq<char>, Seq<char>)>, c: ContributionModel)
    requires
        c.image_ref_is_id,
    ensures
        match assoc_lookup(table, c.image_ref) {
            Some(path) => spec_resolve_one(table, c) == Ok::<ContributionModel, PluginErrorModel>(
                ContributionModel { image_ref: path, image_ref_is_id: false, ..c },
            ),
            None => spec_resolve_one(table, c) == Err::<ContributionModel, PluginErrorModel>(
                PluginErrorModel::UnresolvedReference,
            ),
        },
{
}

} // verus!
