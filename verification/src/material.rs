use vstd::prelude::*;

verus! {

/// The kinds of texture a model's material can carry.
#[derive(Clone, Copy, PartialEq, Eq, Structural, Debug)]
pub enum TextureKind {
    Diffuse,
    Specular,
    Ambient,
    Emissive,
    Height,
    Normals,
    Shininess,
    Opacity,
    Displacement,
    LightMap,
    Reflection,
    BaseColor,
    NormalCamera,
    EmissionColor,
    Metalness,
    Roughness,
    AmbientOcclusion,
    Sheen,
    ClearCoat,
    Transmission,
    Unknown,
}

/// Which of the material's textures fills each role of a texture unit.
#[derive(Clone, Copy, PartialEq, Eq, Structural, Debug)]
pub struct TextureSelection {
    pub base_color: Option<TextureKind>,
    pub normal: Option<TextureKind>,
    pub roughness: Option<TextureKind>,
    pub metalness: Option<TextureKind>,
    pub ambient_occlusion: Option<TextureKind>,
    pub emissive: Option<TextureKind>,
    pub specular: Option<TextureKind>,
    pub ambient: Option<TextureKind>,
    pub height: Option<TextureKind>,
    pub shininess_tex: Option<TextureKind>,
    pub opacity: Option<TextureKind>,
    pub lightmap: Option<TextureKind>,
    pub reflection: Option<TextureKind>,
    pub displacement: Option<TextureKind>,
    pub sheen: Option<TextureKind>,
    pub clearcoat: Option<TextureKind>,
    pub transmission: Option<TextureKind>,
}

/// `kind` where the material has it.
pub open spec fn pick(present: Seq<TextureKind>, kind: TextureKind) -> Option<TextureKind> {
    if present.contains(kind) {
        Some(kind)
    } else {
        None
    }
}

/// `first` where the material has it, else `second` where it has that.
pub open spec fn pick_or(present: Seq<TextureKind>, first: TextureKind, second: TextureKind) -> Option<TextureKind> {
    if present.contains(first) {
        Some(first)
    } else {
        pick(present, second)
    }
}

/// The texture of each role: base colour from the base-colour texture or else the
/// diffuse one, normal from the camera-space normal texture or else the normal map,
/// emissive from the emission-colour texture or else the emissive one; every other
/// role from the texture of its own kind.
pub open spec fn spec_select_textures(present: Seq<TextureKind>) -> TextureSelection {
    TextureSelection {
        base_color: pick_or(present, TextureKind::BaseColor, TextureKind::Diffuse),
        normal: pick_or(present, TextureKind::NormalCamera, TextureKind::Normals),
        roughness: pick(present, TextureKind::Roughness),
        metalness: pick(present, TextureKind::Metalness),
        ambient_occlusion: pick(present, TextureKind::AmbientOcclusion),
        emissive: pick_or(present, TextureKind::EmissionColor, TextureKind::Emissive),
        specular: pick(present, TextureKind::Specular),
        ambient: pick(present, TextureKind::Ambient),
        height: pick(present, TextureKind::Height),
        shininess_tex: pick(present, TextureKind::Shininess),
        opacity: pick(present, TextureKind::Opacity),
        lightmap: pick(present, TextureKind::LightMap),
        reflection: pick(present, TextureKind::Reflection),
        displacement: pick(present, TextureKind::Displacement),
        sheen: pick(present, TextureKind::Sheen),
        clearcoat: pick(present, TextureKind::ClearCoat),
        transmission: pick(present, TextureKind::Transmission),
    }
}

fn has_kind(present: &Vec<TextureKind>, kind: TextureKind) -> (b: bool)
    ensures
        b == present@.contains(kind),
{
    let mut i: usize = 0;
    while i < present.len()
        invariant
            i <= present.len(),
            forall|j: int| 0 <= j < i ==> present@[j] != kind,
        decreases present.len() - i,
    {
        if present[i] == kind {
            return true;
        }
        i = i + 1;
    }
    false
}

fn pick_kind(present: &Vec<TextureKind>, kind: TextureKind) -> (r: Option<TextureKind>)
    ensures
        r == pick(present@, kind),
{
    if has_kind(present, kind) {
        Some(kind)
    } else {
        None
    }
}

fn pick_kind_or(present: &Vec<TextureKind>, first: TextureKind, second: TextureKind) -> (r: Option<TextureKind>)
    ensures
        r == pick_or(present@, first, second),
{
    if has_kind(present, first) {
        Some(first)
    } else {
        pick_kind(present, second)
    }
}

/// Assigns the material's textures (given by the kinds it has) to the roles of a
/// texture unit.
pub fn select_textures(present: &Vec<TextureKind>) -> (r: TextureSelection)
    ensures
        r == spec_select_textures(present@),
{
    TextureSelection {
        base_color: pick_kind_or(present, TextureKind::BaseColor, TextureKind::Diffuse),
        normal: pick_kind_or(present, TextureKind::NormalCamera, TextureKind::Normals),
        roughness: pick_kind(present, TextureKind::Roughness),
        metalness: pick_kind(present, TextureKind::Metalness),
        ambient_occlusion: pick_kind(present, TextureKind::AmbientOcclusion),
        emissive: pick_kind_or(present, TextureKind::EmissionColor, TextureKind::Emissive),
        specular: pick_kind(present, TextureKind::Specular),
        ambient: pick_kind(present, TextureKind::Ambient),
        height: pick_kind(present, TextureKind::Height),
        shininess_tex: pick_kind(present, TextureKind::Shininess),
        opacity: pick_kind(present, TextureKind::Opacity),
        lightmap: pick_kind(present, TextureKind::LightMap),
        reflection: pick_kind(present, TextureKind::Reflection),
        displacement: pick_kind(present, TextureKind::Displacement),
        sheen: pick_kind(present, TextureKind::Sheen),
        clearcoat: pick_kind(present, TextureKind::ClearCoat),
        transmission: pick_kind(present, TextureKind::Transmission),
    }
}

/// A material property as far as the lookup reads it: its key, and the number of
/// floats where its value is a float array (`None` for any other value).
pub struct PropertyShape {
    pub key: String,
    pub float_count: Option<usize>,
}

/// The colour properties of a material.
#[derive(Clone, Copy, PartialEq, Eq, Structural, Debug)]
pub enum ColorProperty {
    Diffuse,
    Specular,
    Ambient,
    Emissive,
}

/// The scalar properties of a material.
#[derive(Clone, Copy, PartialEq, Eq, Structural, Debug)]
pub enum FloatProperty {
    Shininess,
    Opacity,
    Reflectivity,
}

pub open spec fn color_key(c: ColorProperty) -> Seq<char> {
    match c {
        ColorProperty::Diffuse => "$clr.diffuse"@,
        ColorProperty::Specular => "$clr.specular"@,
        ColorProperty::Ambient => "$clr.ambient"@,
        ColorProperty::Emissive => "$clr.emissive"@,
    }
}

pub open spec fn float_key(f: FloatProperty) -> Seq<char> {
    match f {
        FloatProperty::Shininess => "$mat.shininess"@,
        FloatProperty::Opacity => "$mat.opacity"@,
        FloatProperty::Reflectivity => "$mat.reflectivity"@,
    }
}

/// The colour a material gets where it does not state one.
#[derive(Clone, Copy, PartialEq, Eq, Structural, Debug)]
pub enum DefaultColor {
    /// (1, 1, 1, 1)
    OpaqueWhite,
    /// (0, 0, 0, 1)
    OpaqueBlack,
}

pub open spec fn spec_default_color(c: ColorProperty) -> DefaultColor {
    match c {
        ColorProperty::Diffuse => DefaultColor::OpaqueWhite,
        ColorProperty::Specular => DefaultColor::OpaqueWhite,
        ColorProperty::Ambient => DefaultColor::OpaqueBlack,
        ColorProperty::Emissive => DefaultColor::OpaqueBlack,
    }
}

/// A property that can give the colour `key`: that key, and an array of at least
/// three floats.
pub open spec fn color_candidate(p: PropertyShape, key: Seq<char>) -> bool {
    p.key@ == key && (p.float_count matches Some(n) && n >= 3)
}

/// A property that can give the scalar `key`: that key, and a float array.
pub open spec fn float_candidate(p: PropertyShape, key: Seq<char>) -> bool {
    p.key@ == key && p.float_count is Some
}

/// Where a colour was found: the property's position, and whether it gives an alpha
/// (a fourth float; without one the alpha is 1).
#[derive(Clone, Copy, PartialEq, Eq, Structural, Debug)]
pub struct ColorLookup {
    pub index: usize,
    pub has_alpha: bool,
}

fn color_key_string(c: ColorProperty) -> (s: String)
    ensures
        s@ == color_key(c),
{
    match c {
        ColorProperty::Diffuse => "$clr.diffuse".to_owned(),
        ColorProperty::Specular => "$clr.specular".to_owned(),
        ColorProperty::Ambient => "$clr.ambient".to_owned(),
        ColorProperty::Emissive => "$clr.emissive".to_owned(),
    }
}

fn float_key_string(f: FloatProperty) -> (s: String)
    ensures
        s@ == float_key(f),
{
    match f {
        FloatProperty::Shininess => "$mat.shininess".to_owned(),
        FloatProperty::Opacity => "$mat.opacity".to_owned(),
        FloatProperty::Reflectivity => "$mat.reflectivity".to_owned(),
    }
}

/// Finds the first property that gives colour `c`; `None` when there is none, and
/// the colour is then the default one.
pub fn find_color_property(props: &Vec<PropertyShape>, c: ColorProperty) -> (r: Option<ColorLookup>)
    ensures
        match r {
            Some(l) => l.index < props.len()
                && color_candidate(props@[l.index as int], color_key(c))
                && (forall|j: int| 0 <= j < l.index ==> !color_candidate(#[trigger] props@[j], color_key(c)))
                && l.has_alpha == (props@[l.index as int].float_count.unwrap() >= 4),
            None => forall|j: int| 0 <= j < props.len() ==> !color_candidate(#[trigger] props@[j], color_key(c)),
        },
{
    let key = color_key_string(c);
    let mut i: usize = 0;
    while i < props.len()
        invariant
            i <= props.len(),
            key@ == color_key(c),
            forall|j: int| 0 <= j < i ==> !color_candidate(#[trigger] props@[j], color_key(c)),
        decreases props.len() - i,
    {
        let p = &props[i];
        if p.key == key {
            match p.float_count {
                Some(n) => {
                    if n >= 3 {
                        return Some(ColorLookup { index: i, has_alpha: n >= 4 });
                    }
                },
                None => {},
            }
        }
        i = i + 1;
    }
    None
}

/// What the scalar lookup found: the first property with the key and a float array
/// decides.
#[derive(Clone, Copy, PartialEq, Eq, Structural, Debug)]
pub enum FloatLookup {
    /// That property's array holds at least one float; its first is the value.
    Found(usize),
    /// That property's array is empty, so it holds no value to read.
    EmptyArray(usize),
    /// No property has the key and a float array; the scalar is its default.
    Absent,
}

/// Finds the first property that gives scalar `f`, and says whether its array holds a
/// value.
pub fn find_float_property(props: &Vec<PropertyShape>, f: FloatProperty) -> (r: FloatLookup)
    ensures
        match r {
            FloatLookup::Found(i) => i < props.len()
                && float_candidate(props@[i as int], float_key(f))
                && props@[i as int].float_count.unwrap() >= 1
                && (forall|j: int| 0 <= j < i ==> !float_candidate(#[trigger] props@[j], float_key(f))),
            FloatLookup::EmptyArray(i) => i < props.len()
                && float_candidate(props@[i as int], float_key(f))
                && props@[i as int].float_count.unwrap() == 0
                && (forall|j: int| 0 <= j < i ==> !float_candidate(#[trigger] props@[j], float_key(f))),
            FloatLookup::Absent => forall|j: int| 0 <= j < props.len() ==> !float_candidate(#[trigger] props@[j], float_key(f)),
        },
{
    let key = float_key_string(f);
    let mut i: usize = 0;
    while i < props.len()
        invariant
            i <= props.len(),
            key@ == float_key(f),
            forall|j: int| 0 <= j < i ==> !float_candidate(#[trigger] props@[j], float_key(f)),
        decreases props.len() - i,
    {
        let p = &props[i];
        if p.key == key {
            match p.float_count {
                Some(n) => {
                    if n >= 1 {
                        return FloatLookup::Found(i);
                    } else {
                        return FloatLookup::EmptyArray(i);
                    }
                },
                None => {},
            }
        }
        i = i + 1;
    }
    FloatLookup::Absent
}

/// The colour used for `c` where the material states none.
pub fn default_color(c: ColorProperty) -> (d: DefaultColor)
    ensures
        d == spec_default_color(c),
{
    match c {
        ColorProperty::Diffuse => DefaultColor::OpaqueWhite,
        ColorProperty::Specular => DefaultColor::OpaqueWhite,
        ColorProperty::Ambient => DefaultColor::OpaqueBlack,
        ColorProperty::Emissive => DefaultColor::OpaqueBlack,
    }
}

/// A role's texture is always one the material has; a preferred kind wins over its
/// fallback; and a role is empty only when the material has none of its kinds.
pub proof fn lemma_selection_prefers_and_falls_back(present: Seq<TextureKind>)
    ensures
        spec_select_textures(present).base_color matches Some(k) ==> present.contains(k),
        spec_select_textures(present).normal matches Some(k) ==> present.contains(k),
        spec_select_textures(present).emissive matches Some(k) ==> present.contains(k),
        present.contains(TextureKind::BaseColor) ==> spec_select_textures(present).base_color == Some(TextureKind::BaseColor),
        present.contains(TextureKind::NormalCamera) ==> spec_select_textures(present).normal == Some(TextureKind::NormalCamera),
        present.contains(TextureKind::EmissionColor) ==> spec_select_textures(present).emissive == Some(TextureKind::EmissionColor),
        spec_select_textures(present).base_color is None
            <==> !present.contains(TextureKind::BaseColor) && !present.contains(TextureKind::Diffuse),
        spec_select_textures(present).normal is None
            <==> !present.contains(TextureKind::NormalCamera) && !present.contains(TextureKind::Normals),
        spec_select_textures(present).emissive is None
            <==> !present.contains(TextureKind::EmissionColor) && !present.contains(TextureKind::Emissive),
{
}

/// Every role without a fallback is filled by the texture of its own kind, exactly
/// when the material has that kind: roughness by the roughness texture, metalness by
/// the metalness texture, and so on. The base colour, normal and emissive roles take
/// their preferred kind where present, else their fallback kind, else nothing.
pub proof fn lemma_each_role_takes_its_kind(present: Seq<TextureKind>, sel: TextureSelection)
    requires
        sel == spec_select_textures(present),
    ensures
        sel.roughness == (if present.contains(TextureKind::Roughness) { Some(TextureKind::Roughness) } else { None }),
        sel.metalness == (if present.contains(TextureKind::Metalness) { Some(TextureKind::Metalness) } else { None }),
        sel.ambient_occlusion == (if present.contains(TextureKind::AmbientOcclusion) { Some(TextureKind::AmbientOcclusion) } else { None }),
        sel.specular == (if present.contains(TextureKind::Specular) { Some(TextureKind::Specular) } else { None }),
        sel.ambient == (if present.contains(TextureKind::Ambient) { Some(TextureKind::Ambient) } else { None }),
        sel.height == (if present.contains(TextureKind::Height) { Some(TextureKind::Height) } else { None }),
        sel.shininess_tex == (if present.contains(TextureKind::Shininess) { Some(TextureKind::Shininess) } else { None }),
        sel.opacity == (if present.contains(TextureKind::Opacity) { Some(TextureKind::Opacity) } else { None }),
        sel.lightmap == (if present.contains(TextureKind::LightMap) { Some(TextureKind::LightMap) } else { None }),
        sel.reflection == (if present.contains(TextureKind::Reflection) { Some(TextureKind::Reflection) } else { None }),
        sel.displacement == (if present.contains(TextureKind::Displacement) { Some(TextureKind::Displacement) } else { None }),
        sel.sheen == (if present.contains(TextureKind::Sheen) { Some(TextureKind::Sheen) } else { None }),
        sel.clearcoat == (if present.contains(TextureKind::ClearCoat) { Some(TextureKind::ClearCoat) } else { None }),
        sel.transmission == (if present.contains(TextureKind::Transmission) { Some(TextureKind::Transmission) } else { None }),
        sel.base_color == (if present.contains(TextureKind::BaseColor) { Some(TextureKind::BaseColor) } else if present.contains(TextureKind::Diffuse) { Some(TextureKind::Diffuse) } else { None }),
        sel.normal == (if present.contains(TextureKind::NormalCamera) { Some(TextureKind::NormalCamera) } else if present.contains(TextureKind::Normals) { Some(TextureKind::Normals) } else { None }),
        sel.emissive == (if present.contains(TextureKind::EmissionColor) { Some(TextureKind::EmissionColor) } else if present.contains(TextureKind::Emissive) { Some(TextureKind::Emissive) } else { None }),
{
}

/// The colour and scalar keys are distinct, so no property can answer two lookups.
pub proof fn lemma_property_keys_distinct(a: ColorProperty, b: ColorProperty, f: FloatProperty, g: FloatProperty)
    ensures
        a != b ==> color_key(a) != color_key(b),
        f != g ==> float_key(f) != float_key(g),
        color_key(a) != float_key(f),
{
    reveal_strlit("$clr.diffuse");
    reveal_strlit("$clr.specular");
    reveal_strlit("$clr.ambient");
    reveal_strlit("$clr.emissive");
    reveal_strlit("$mat.shininess");
    reveal_strlit("$mat.opacity");
    reveal_strlit("$mat.reflectivity");
    assert(color_key(a)[1] == 'c');
    assert(float_key(f)[1] == 'm');
    if a != b {
        assert(color_key(a) != color_key(b)) by {
            if color_key(a).len() == color_key(b).len() {
                assert(color_key(a)[5] != color_key(b)[5]);
            }
        }
    }
    if f != g {
        assert(float_key(f).len() != float_key(g).len());
    }
}

} // verus!
