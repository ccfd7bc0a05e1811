//! Flags, formats and limits.
use vstd::prelude::*;

verus! {

/// What a buffer may be used for.
#[derive(Clone, Copy, PartialEq, Eq, Structural, Debug)]
pub struct BufferUsages {
    pub map_read: bool,
    pub map_write: bool,
    pub copy_src: bool,
    pub copy_dst: bool,
    pub index: bool,
    pub vertex: bool,
    pub uniform: bool,
    pub storage: bool,
    pub indirect: bool,
    pub query_resolve: bool,
}

impl BufferUsages {
    /// No use at all.
    pub open spec fn none() -> Self {
        BufferUsages {
            map_read: false,
            map_write: false,
            copy_src: false,
            copy_dst: false,
            index: false,
            vertex: false,
            uniform: false,
            storage: false,
            indirect: false,
            query_resolve: false,
        }
    }

    /// What either allows.
    pub open spec fn either(self, other: Self) -> Self {
        BufferUsages {
            map_read: self.map_read || other.map_read,
            map_write: self.map_write || other.map_write,
            copy_src: self.copy_src || other.copy_src,
            copy_dst: self.copy_dst || other.copy_dst,
            index: self.index || other.index,
            vertex: self.vertex || other.vertex,
            uniform: self.uniform || other.uniform,
            storage: self.storage || other.storage,
            indirect: self.indirect || other.indirect,
            query_resolve: self.query_resolve || other.query_resolve,
        }
    }

    /// Everything that `other` allows is allowed.
    pub open spec fn allows(self, other: Self) -> bool {
        &&& other.map_read ==> self.map_read
        &&& other.map_write ==> self.map_write
        &&& other.copy_src ==> self.copy_src
        &&& other.copy_dst ==> self.copy_dst
        &&& other.index ==> self.index
        &&& other.vertex ==> self.vertex
        &&& other.uniform ==> self.uniform
        &&& other.storage ==> self.storage
        &&& other.indirect ==> self.indirect
        &&& other.query_resolve ==> self.query_resolve
    }

    /// No use at all.
    pub fn empty() -> (usage: Self)
        ensures
            usage == Self::none(),
    {
        BufferUsages {
            map_read: false,
            map_write: false,
            copy_src: false,
            copy_dst: false,
            index: false,
            vertex: false,
            uniform: false,
            storage: false,
            indirect: false,
            query_resolve: false,
        }
    }

    /// Whether everything that `other` allows is allowed.
    pub fn contains(self, other: Self) -> (all: bool)
        ensures
            all == self.allows(other),
    {
        (self.map_read || !other.map_read)
            && (self.map_write || !other.map_write)
            && (self.copy_src || !other.copy_src)
            && (self.copy_dst || !other.copy_dst)
            && (self.index || !other.index)
            && (self.vertex || !other.vertex)
            && (self.uniform || !other.uniform)
            && (self.storage || !other.storage)
            && (self.indirect || !other.indirect)
            && (self.query_resolve || !other.query_resolve)
    }

    pub fn map_read() -> (usage: Self)
        ensures
            usage == (BufferUsages { map_read: true, ..Self::none() }),
    {
        BufferUsages { map_read: true, ..Self::empty() }
    }

    pub fn map_write() -> (usage: Self)
        ensures
            usage == (BufferUsages { map_write: true, ..Self::none() }),
    {
        BufferUsages { map_write: true, ..Self::empty() }
    }

    pub fn copy_src() -> (usage: Self)
        ensures
            usage == (BufferUsages { copy_src: true, ..Self::none() }),
    {
        BufferUsages { copy_src: true, ..Self::empty() }
    }

    pub fn copy_dst() -> (usage: Self)
        ensures
            usage == (BufferUsages { copy_dst: true, ..Self::none() }),
    {
        BufferUsages { copy_dst: true, ..Self::empty() }
    }

    pub fn index() -> (usage: Self)
        ensures
            usage == (BufferUsages { index: true, ..Self::none() }),
    {
        BufferUsages { index: true, ..Self::empty() }
    }

    pub fn vertex() -> (usage: Self)
        ensures
            usage == (BufferUsages { vertex: true, ..Self::none() }),
    {
        BufferUsages { vertex: true, ..Self::empty() }
    }

    pub fn uniform() -> (usage: Self)
        ensures
            usage == (BufferUsages { uniform: true, ..Self::none() }),
    {
        BufferUsages { uniform: true, ..Self::empty() }
    }

    pub fn storage() -> (usage: Self)
        ensures
            usage == (BufferUsages { storage: true, ..Self::none() }),
    {
        BufferUsages { storage: true, ..Self::empty() }
    }

    pub fn indirect() -> (usage: Self)
        ensures
            usage == (BufferUsages { indirect: true, ..Self::none() }),
    {
        BufferUsages { indirect: true, ..Self::empty() }
    }

    pub fn query_resolve() -> (usage: Self)
        ensures
            usage == (BufferUsages { query_resolve: true, ..Self::none() }),
    {
        BufferUsages { query_resolve: true, ..Self::empty() }
    }
}

impl core::ops::BitOr for BufferUsages {
    type Output = BufferUsages;

    fn bitor(self, other: BufferUsages) -> (both: BufferUsages) {
        BufferUsages {
            map_read: self.map_read || other.map_read,
            map_write: self.map_write || other.map_write,
            copy_src: self.copy_src || other.copy_src,
            copy_dst: self.copy_dst || other.copy_dst,
            index: self.index || other.index,
            vertex: self.vertex || other.vertex,
            uniform: self.uniform || other.uniform,
            storage: self.storage || other.storage,
            indirect: self.indirect || other.indirect,
            query_resolve: self.query_resolve || other.query_resolve,
        }
    }
}

impl vstd::std_specs::ops::BitOrSpecImpl for BufferUsages {
    open spec fn obeys_bitor_spec() -> bool {
        true
    }

    open spec fn bitor_req(self, other: BufferUsages) -> bool {
        true
    }

    open spec fn bitor_spec(self, other: BufferUsages) -> BufferUsages {
        self.either(other)
    }
}

/// What a texture may be used for.
#[derive(Clone, Copy, PartialEq, Eq, Structural, Debug)]
pub struct TextureUsages {
    pub copy_src: bool,
    pub copy_dst: bool,
    pub texture_binding: bool,
    pub storage_binding: bool,
    pub render_attachment: bool,
}

impl TextureUsages {
    /// No use at all.
    pub open spec fn none() -> Self {
        TextureUsages {
            copy_src: false,
            copy_dst: false,
            texture_binding: false,
            storage_binding: false,
            render_attachment: false,
        }
    }

    /// What either allows.
    pub open spec fn either(self, other: Self) -> Self {
        TextureUsages {
            copy_src: self.copy_src || other.copy_src,
            copy_dst: self.copy_dst || other.copy_dst,
            texture_binding: self.texture_binding || other.texture_binding,
            storage_binding: self.storage_binding || other.storage_binding,
            render_attachment: self.render_attachment || other.render_attachment,
        }
    }

    /// Everything that `other` allows is allowed.
    pub open spec fn allows(self, other: Self) -> bool {
        &&& other.copy_src ==> self.copy_src
        &&& other.copy_dst ==> self.copy_dst
        &&& other.texture_binding ==> self.texture_binding
        &&& other.storage_binding ==> self.storage_binding
        &&& other.render_attachment ==> self.render_attachment
    }

    /// No use at all.
    pub fn empty() -> (usage: Self)
        ensures
            usage == Self::none(),
    {
        TextureUsages {
            copy_src: false,
            copy_dst: false,
            texture_binding: false,
            storage_binding: false,
            render_attachment: false,
        }
    }

    /// Whether everything that `other` allows is allowed.
    pub fn contains(self, other: Self) -> (all: bool)
        ensures
            all == self.allows(other),
    {
        (self.copy_src || !other.copy_src)
            && (self.copy_dst || !other.copy_dst)
            && (self.texture_binding || !other.texture_binding)
            && (self.storage_binding || !other.storage_binding)
            && (self.render_attachment || !other.render_attachment)
    }

    pub fn copy_src() -> (usage: Self)
        ensures
            usage == (TextureUsages { copy_src: true, ..Self::none() }),
    {
        TextureUsages { copy_src: true, ..Self::empty() }
    }

    pub fn copy_dst() -> (usage: Self)
        ensures
            usage == (TextureUsages { copy_dst: true, ..Self::none() }),
    {
        TextureUsages { copy_dst: true, ..Self::empty() }
    }

    pub fn texture_binding() -> (usage: Self)
        ensures
            usage == (TextureUsages { texture_binding: true, ..Self::none() }),
    {
        TextureUsages { texture_binding: true, ..Self::empty() }
    }

    pub fn storage_binding() -> (usage: Self)
        ensures
            usage == (TextureUsages { storage_binding: true, ..Self::none() }),
    {
        TextureUsages { storage_binding: true, ..Self::empty() }
    }

    pub fn render_attachment() -> (usage: Self)
        ensures
            usage == (TextureUsages { render_attachment: true, ..Self::none() }),
    {
        TextureUsages { render_attachment: true, ..Self::empty() }
    }
}

impl core::ops::BitOr for TextureUsages {
    type Output = TextureUsages;

    fn bitor(self, other: TextureUsages) -> (both: TextureUsages) {
        TextureUsages {
            copy_src: self.copy_src || other.copy_src,
            copy_dst: self.copy_dst || other.copy_dst,
            texture_binding: self.texture_binding || other.texture_binding,
            storage_binding: self.storage_binding || other.storage_binding,
            render_attachment: self.render_attachment || other.render_attachment,
        }
    }
}

impl vstd::std_specs::ops::BitOrSpecImpl for TextureUsages {
    open spec fn obeys_bitor_spec() -> bool {
        true
    }

    open spec fn bitor_req(self, other: TextureUsages) -> bool {
        true
    }

    open spec fn bitor_spec(self, other: TextureUsages) -> TextureUsages {
        self.either(other)
    }
}

/// The block of an ASTC-compressed texture.
#[derive(Clone, Copy, PartialEq, Eq, Structural, Debug)]
pub enum AstcBlock {
    B4x4,
    B5x4,
    B5x5,
    B6x5,
    B6x6,
    B8x5,
    B8x6,
    B8x8,
    B10x5,
    B10x6,
    B10x8,
    B10x10,
    B12x10,
    B12x12,
}

/// The channel type of an ASTC-compressed texture.
#[derive(Clone, Copy, PartialEq, Eq, Structural, Debug)]
pub enum AstcChannel {
    Unorm,
    UnormSrgb,
    Hdr,
}

/// How the pixels of a texture are laid out.
#[derive(Clone, Copy, PartialEq, Eq, Structural, Debug)]
pub enum TextureFormat {
    R8Unorm,
    R8Snorm,
    R8Uint,
    R8Sint,
    R16Uint,
    R16Sint,
    R16Unorm,
    R16Snorm,
    R16Float,
    Rg8Unorm,
    Rg8Snorm,
    Rg8Uint,
    Rg8Sint,
    R32Uint,
    R32Sint,
    R32Float,
    Rg16Uint,
    Rg16Sint,
    Rg16Unorm,
    Rg16Snorm,
    Rg16Float,
    Rgba8Unorm,
    Rgba8UnormSrgb,
    Rgba8Snorm,
    Rgba8Uint,
    Rgba8Sint,
    Bgra8Unorm,
    Bgra8UnormSrgb,
    Rgb9e5Ufloat,
    Rgb10a2Uint,
    Rgb10a2Unorm,
    Rg11b10Ufloat,
    R64Uint,
    Rg32Uint,
    Rg32Sint,
    Rg32Float,
    Rgba16Uint,
    Rgba16Sint,
    Rgba16Unorm,
    Rgba16Snorm,
    Rgba16Float,
    Rgba32Uint,
    Rgba32Sint,
    Rgba32Float,
    Stencil8,
    Depth16Unorm,
    Depth24Plus,
    Depth24PlusStencil8,
    Depth32Float,
    Depth32FloatStencil8,
    NV12,
    P010,
    Bc1RgbaUnorm,
    Bc1RgbaUnormSrgb,
    Bc2RgbaUnorm,
    Bc2RgbaUnormSrgb,
    Bc3RgbaUnorm,
    Bc3RgbaUnormSrgb,
    Bc4RUnorm,
    Bc4RSnorm,
    Bc5RgUnorm,
    Bc5RgSnorm,
    Bc6hRgbUfloat,
    Bc6hRgbFloat,
    Bc7RgbaUnorm,
    Bc7RgbaUnormSrgb,
    Etc2Rgb8Unorm,
    Etc2Rgb8UnormSrgb,
    Etc2Rgb8A1Unorm,
    Etc2Rgb8A1UnormSrgb,
    Etc2Rgba8Unorm,
    Etc2Rgba8UnormSrgb,
    EacR11Unorm,
    EacR11Snorm,
    EacRg11Unorm,
    EacRg11Snorm,
    Astc { block: AstcBlock, channel: AstcChannel },
}

/// What a device can do beyond the basics.
#[derive(Clone, Copy, PartialEq, Eq, Structural, Debug)]
pub struct DeviceFeatures {
    pub timestamp_query: bool,
}

/// What a device can do at most.
#[derive(Clone, Copy, PartialEq, Eq, Structural, Debug)]
pub struct Limits {
    pub max_buffer_size: u64,
    pub max_uniform_buffer_binding_size: u64,
    pub max_storage_buffer_binding_size: u64,
    pub min_uniform_buffer_offset_alignment: u32,
    pub min_storage_buffer_offset_alignment: u32,
    pub max_texture_dimension_2d: u32,
    pub max_texture_array_layers: u32,
}

// ---------------------------------------------------------------------------
// Laws
// ---------------------------------------------------------------------------

/// No use at all is none of the uses of a buffer.
pub proof fn law_no_use_of_a_buffer_is_none()
    ensures
        !BufferUsages::none().map_read,
        !BufferUsages::none().map_write,
        !BufferUsages::none().copy_src,
        !BufferUsages::none().copy_dst,
        !BufferUsages::none().index,
        !BufferUsages::none().vertex,
        !BufferUsages::none().uniform,
        !BufferUsages::none().storage,
        !BufferUsages::none().indirect,
        !BufferUsages::none().query_resolve,
{
}

/// Two sets of uses of a buffer together allow a use exactly if one of them
/// does.
pub proof fn law_uses_of_a_buffer_add_up(one: BufferUsages, other: BufferUsages)
    ensures
        one.either(other).map_read <==> one.map_read || other.map_read,
        one.either(other).map_write <==> one.map_write || other.map_write,
        one.either(other).copy_src <==> one.copy_src || other.copy_src,
        one.either(other).copy_dst <==> one.copy_dst || other.copy_dst,
        one.either(other).index <==> one.index || other.index,
        one.either(other).vertex <==> one.vertex || other.vertex,
        one.either(other).uniform <==> one.uniform || other.uniform,
        one.either(other).storage <==> one.storage || other.storage,
        one.either(other).indirect <==> one.indirect || other.indirect,
        one.either(other).query_resolve <==> one.query_resolve || other.query_resolve,
{
}

/// One set of uses of a buffer allows another exactly if it has each use that
/// the other has: what allows two sets allows both together, every set allows
/// itself and nothing, and two that allow each other are the same.
pub proof fn law_allowing_is_having_each_use_of_a_buffer(
    one: BufferUsages,
    other: BufferUsages,
    third: BufferUsages,
)
    ensures
        one.allows(other) <==> one.either(other) == one,
        one.allows(other) && other.allows(one) ==> one == other,
        one.allows(other) && one.allows(third) <==> one.allows(other.either(third)),
        one.allows(one),
        one.allows(BufferUsages::none()),
        one.allows(other) <==> {
            &&& other.map_read ==> one.map_read
            &&& other.map_write ==> one.map_write
            &&& other.copy_src ==> one.copy_src
            &&& other.copy_dst ==> one.copy_dst
            &&& other.index ==> one.index
            &&& other.vertex ==> one.vertex
            &&& other.uniform ==> one.uniform
            &&& other.storage ==> one.storage
            &&& other.indirect ==> one.indirect
            &&& other.query_resolve ==> one.query_resolve
        },
{
}

/// No use at all is none of the uses of a texture.
pub proof fn law_no_use_of_a_texture_is_none()
    ensures
        !TextureUsages::none().copy_src,
        !TextureUsages::none().copy_dst,
        !TextureUsages::none().texture_binding,
        !TextureUsages::none().storage_binding,
        !TextureUsages::none().render_attachment,
{
}

/// Two sets of uses of a texture together allow a use exactly if one of them
/// does.
pub proof fn law_uses_of_a_texture_add_up(one: TextureUsages, other: TextureUsages)
    ensures
        one.either(other).copy_src <==> one.copy_src || other.copy_src,
        one.either(other).copy_dst <==> one.copy_dst || other.copy_dst,
        one.either(other).texture_binding <==> one.texture_binding || other.texture_binding,
        one.either(other).storage_binding <==> one.storage_binding || other.storage_binding,
        one.either(other).render_attachment <==> one.render_attachment || other.render_attachment,
{
}

/// One set of uses of a texture allows another exactly if it has each use that
/// the other has: what allows two sets allows both together, every set allows
/// itself and nothing, and two that allow each other are the same.
pub proof fn law_allowing_is_having_each_use_of_a_texture(
    one: TextureUsages,
    other: TextureUsages,
    third: TextureUsages,
)
    ensures
        one.allows(other) <==> one.either(other) == one,
        one.allows(other) && other.allows(one) ==> one == other,
        one.allows(other) && one.allows(third) <==> one.allows(other.either(third)),
        one.allows(one),
        one.allows(TextureUsages::none()),
        one.allows(other) <==> {
            &&& other.copy_src ==> one.copy_src
            &&& other.copy_dst ==> one.copy_dst
            &&& other.texture_binding ==> one.texture_binding
            &&& other.storage_binding ==> one.storage_binding
            &&& other.render_attachment ==> one.render_attachment
        },
{
}

/// Each named use of a buffer is that use and no other.
pub proof fn law_named_uses_of_a_buffer(
    nothing: BufferUsages,
    map_read: BufferUsages,
    map_write: BufferUsages,
    copy_src: BufferUsages,
    copy_dst: BufferUsages,
    index: BufferUsages,
    vertex: BufferUsages,
    uniform: BufferUsages,
    storage: BufferUsages,
    indirect: BufferUsages,
    query_resolve: BufferUsages,
)
    requires
        call_ensures(BufferUsages::empty, (), nothing),
        call_ensures(BufferUsages::map_read, (), map_read),
        call_ensures(BufferUsages::map_write, (), map_write),
        call_ensures(BufferUsages::copy_src, (), copy_src),
        call_ensures(BufferUsages::copy_dst, (), copy_dst),
        call_ensures(BufferUsages::index, (), index),
        call_ensures(BufferUsages::vertex, (), vertex),
        call_ensures(BufferUsages::uniform, (), uniform),
        call_ensures(BufferUsages::storage, (), storage),
        call_ensures(BufferUsages::indirect, (), indirect),
        call_ensures(BufferUsages::query_resolve, (), query_resolve),
    ensures
        !nothing.map_read,
        !nothing.map_write,
        !nothing.copy_src,
        !nothing.copy_dst,
        !nothing.index,
        !nothing.vertex,
        !nothing.uniform,
        !nothing.storage,
        !nothing.indirect,
        !nothing.query_resolve,
        map_read == (BufferUsages { map_read: true, ..nothing }),
        map_write == (BufferUsages { map_write: true, ..nothing }),
        copy_src == (BufferUsages { copy_src: true, ..nothing }),
        copy_dst == (BufferUsages { copy_dst: true, ..nothing }),
        index == (BufferUsages { index: true, ..nothing }),
        vertex == (BufferUsages { vertex: true, ..nothing }),
        uniform == (BufferUsages { uniform: true, ..nothing }),
        storage == (BufferUsages { storage: true, ..nothing }),
        indirect == (BufferUsages { indirect: true, ..nothing }),
        query_resolve == (BufferUsages { query_resolve: true, ..nothing }),
{
}

/// One set of uses of a buffer contains another exactly if it has each of its
/// uses.
pub proof fn law_containing_uses_of_a_buffer(one: BufferUsages, other: BufferUsages, all: bool)
    requires
        call_ensures(BufferUsages::contains, (one, other), all),
    ensures
        all <==> {
            &&& other.map_read ==> one.map_read
            &&& other.map_write ==> one.map_write
            &&& other.copy_src ==> one.copy_src
            &&& other.copy_dst ==> one.copy_dst
            &&& other.index ==> one.index
            &&& other.vertex ==> one.vertex
            &&& other.uniform ==> one.uniform
            &&& other.storage ==> one.storage
            &&& other.indirect ==> one.indirect
            &&& other.query_resolve ==> one.query_resolve
        },
{
}

/// Each named use of a texture is that use and no other.
pub proof fn law_named_uses_of_a_texture(
    nothing: TextureUsages,
    copy_src: TextureUsages,
    copy_dst: TextureUsages,
    texture_binding: TextureUsages,
    storage_binding: TextureUsages,
    render_attachment: TextureUsages,
)
    requires
        call_ensures(TextureUsages::empty, (), nothing),
        call_ensures(TextureUsages::copy_src, (), copy_src),
        call_ensures(TextureUsages::copy_dst, (), copy_dst),
        call_ensures(TextureUsages::texture_binding, (), texture_binding),
        call_ensures(TextureUsages::storage_binding, (), storage_binding),
        call_ensures(TextureUsages::render_attachment, (), render_attachment),
    ensures
        !nothing.copy_src,
        !nothing.copy_dst,
        !nothing.texture_binding,
        !nothing.storage_binding,
        !nothing.render_attachment,
        copy_src == (TextureUsages { copy_src: true, ..nothing }),
        copy_dst == (TextureUsages { copy_dst: true, ..nothing }),
        texture_binding == (TextureUsages { texture_binding: true, ..nothing }),
        storage_binding == (TextureUsages { storage_binding: true, ..nothing }),
        render_attachment == (TextureUsages { render_attachment: true, ..nothing }),
{
}

/// One set of uses of a texture contains another exactly if it has each of its
/// uses.
pub proof fn law_containing_uses_of_a_texture(one: TextureUsages, other: TextureUsages, all: bool)
    requires
        call_ensures(TextureUsages::contains, (one, other), all),
    ensures
        all <==> {
            &&& other.copy_src ==> one.copy_src
            &&& other.copy_dst ==> one.copy_dst
            &&& other.texture_binding ==> one.texture_binding
            &&& other.storage_binding ==> one.storage_binding
            &&& other.render_attachment ==> one.render_attachment
        },
{
}

/// Two sets of uses of a buffer joined by `|` allow what either allows.
pub proof fn law_joining_uses_of_a_buffer(one: BufferUsages, other: BufferUsages, both: BufferUsages)
    requires
        call_ensures(<BufferUsages as core::ops::BitOr>::bitor, (one, other), both),
    ensures
        both.map_read <==> one.map_read || other.map_read,
        both.map_write <==> one.map_write || other.map_write,
        both.copy_src <==> one.copy_src || other.copy_src,
        both.copy_dst <==> one.copy_dst || other.copy_dst,
        both.index <==> one.index || other.index,
        both.vertex <==> one.vertex || other.vertex,
        both.uniform <==> one.uniform || other.uniform,
        both.storage <==> one.storage || other.storage,
        both.indirect <==> one.indirect || other.indirect,
        both.query_resolve <==> one.query_resolve || other.query_resolve,
{
}

/// Two sets of uses of a texture joined by `|` allow what either allows.
pub proof fn law_joining_uses_of_a_texture(one: TextureUsages, other: TextureUsages, both: TextureUsages)
    requires
        call_ensures(<TextureUsages as core::ops::BitOr>::bitor, (one, other), both),
    ensures
        both.copy_src <==> one.copy_src || other.copy_src,
        both.copy_dst <==> one.copy_dst || other.copy_dst,
        both.texture_binding <==> one.texture_binding || other.texture_binding,
        both.storage_binding <==> one.storage_binding || other.storage_binding,
        both.render_attachment <==> one.render_attachment || other.render_attachment,
{
}

} // verus!
