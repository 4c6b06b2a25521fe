//! Values that shader uniforms hold.

use vstd::prelude::*;

verus! {

/// A vector of two, three or four components.
#[derive(Debug, Clone)]
pub enum Vector<T> {
    Vec2([T; 2]),
    Vec3([T; 3]),
    Vec4([T; 4]),
}

impl<T: Default + Copy> Vector<T> {
    /// A zeroed uniform vector for a shader vector of `size` components. Every
    /// size is stored as a two-component vector of default values: both
    /// components are a value that `T::default()` returns.
    pub fn new(size: u32) -> (r: Self)
        requires
            2 <= size <= 4,
        ensures
            r matches Vector::Vec2(a) && a[0] == a[1] && call_ensures(T::default, (), a[0]),
    {
        let d = T::default();
        match size {
            2 => Self::Vec2([d, d]),
            3 => Self::Vec2([d, d]),
            _ => Self::Vec2([d, d]),
        }
    }

    /// The vector of the given values; only two values make a vector (the
    /// conversion into a two-component array refuses longer slices).
    pub fn from(values: &[T]) -> (r: Self)
        requires
            values@.len() == 2,
        ensures
            r matches Vector::Vec2(a) && a[0] == values@[0] && a[1] == values@[1],
    {
        Self::Vec2([values[0], values[1]])
    }
}

/// A texture uniform.
#[derive(PartialEq, Eq, Debug, Clone)]
pub struct Texture {}

impl Texture {
    pub fn new() -> (r: Self)
        ensures
            r == (Texture {}),
    {
        Self {}
    }
}

/// A sampler uniform.
#[derive(Debug, Clone)]
pub struct Sampler {}

impl Sampler {
    /// A sampler; comparison samplers and others are stored alike.
    pub fn new(comparison: bool) -> (r: Self)
        ensures
            r == (Sampler {}),
    {
        Self {}
    }
}

/// The dimension of a shader image.
#[derive(Clone, Copy, Debug, PartialEq, Eq, Structural)]
pub enum ImageDimension {
    D1,
    D2,
    D3,
    Cube,
}

/// The kind of scalar a shader value holds.
#[derive(Clone, Copy, Debug, PartialEq, Eq, Structural)]
pub enum ScalarKind {
    Sint,
    Uint,
    Float,
    Bool,
}

/// The texel format of a shader storage image.
#[derive(Clone, Copy, Debug, PartialEq, Eq, Structural)]
pub enum StorageFormat {
    R8Unorm,
    R8Snorm,
    R8Uint,
    R8Sint,
    R16Uint,
    R16Sint,
    R16Float,
    Rg8Unorm,
    Rg8Snorm,
    Rg8Uint,
    Rg8Sint,
    R32Uint,
    R32Sint,
    R32Float,
    Rg16Uint,
    Rg16Sint,
    Rg16Float,
    Rgba8Unorm,
    Rgba8Snorm,
    Rgba8Uint,
    Rgba8Sint,
    Rgb10a2Unorm,
    Rg11b10Float,
    Rg32Uint,
    Rg32Sint,
    Rg32Float,
    Rgba16Uint,
    Rgba16Sint,
    Rgba16Float,
    Rgba32Uint,
    Rgba32Sint,
    Rgba32Float,
    R16Unorm,
    R16Snorm,
    Rg16Unorm,
    Rg16Snorm,
    Rgba16Unorm,
    Rgba16Snorm,
}

/// The class of a shader image: sampled, depth, or storage with its format and
/// the bits of its access (1 for load, 2 for store).
#[derive(Clone, Copy, Debug, PartialEq, Eq, Structural)]
pub enum ImageClass {
    Sampled { kind: ScalarKind, multi: bool },
    Depth { multi: bool },
    Storage { format: StorageFormat, access: u32 },
}

/// The dimension of a texture view that a binding expects.
#[derive(Clone, Copy, Debug, PartialEq, Eq, Structural)]
pub enum TextureViewDimension {
    D1,
    D2,
    D2Array,
    Cube,
    CubeArray,
    D3,
}

/// The type of the samples a texture binding gives.
#[derive(Clone, Copy, Debug, PartialEq, Eq, Structural)]
pub enum TextureSampleType {
    Float { filterable: bool },
    Sint,
    Uint,
    Depth,
}

/// How a shader may access a storage texture.
#[derive(Clone, Copy, Debug, PartialEq, Eq, Structural)]
pub enum StorageTextureAccess {
    ReadOnly,
    WriteOnly,
    ReadWrite,
}

/// The format of a storage texture binding.
#[derive(Clone, Copy, Debug, PartialEq, Eq, Structural)]
pub enum TextureFormat {
    R8Unorm,
    R8Snorm,
    R8Uint,
    R8Sint,
    R16Uint,
    R16Sint,
    R16Float,
    Rg8Unorm,
    Rg8Snorm,
    Rg8Uint,
    Rg8Sint,
    R32Uint,
    R32Sint,
    R32Float,
    Rg16Uint,
    Rg16Sint,
    Rg16Float,
    Rgba8Unorm,
    Rgba8Snorm,
    Rgba8Uint,
    Rgba8Sint,
    Rgb10a2Unorm,
    Rg11b10Float,
    Rg32Uint,
    Rg32Sint,
    Rg32Float,
    Rgba16Uint,
    Rgba16Sint,
    Rgba16Float,
    Rgba32Uint,
    Rgba32Sint,
    Rgba32Float,
    R16Unorm,
    R16Snorm,
    Rg16Unorm,
    Rg16Snorm,
    Rgba16Unorm,
    Rgba16Snorm,
}

/// Whether a sampler binding filters.
#[derive(Clone, Copy, Debug, PartialEq, Eq, Structural)]
pub enum SamplerBindingType {
    Filtering,
    NonFiltering,
}

/// The binding a shader uniform takes.
#[derive(Clone, Copy, Debug, PartialEq, Eq, Structural)]
pub enum BindingType {
    /// A uniform buffer without dynamic offset, of at least the given size
    /// (none where the size is zero).
    UniformBuffer { min_binding_size: Option<u64> },
    Texture { sample_type: TextureSampleType, view_dimension: TextureViewDimension, multisampled: bool },
    StorageTexture { access: StorageTextureAccess, format: TextureFormat, view_dimension: TextureViewDimension },
    Sampler(SamplerBindingType),
}

/// The view dimension of an image; arrays of one- and three-dimensional images have none.
pub open spec fn view_dimension_of(dim: ImageDimension, arrayed: bool) -> Option<TextureViewDimension> {
    match dim {
        ImageDimension::D1 => if arrayed { None } else { Some(TextureViewDimension::D1) },
        ImageDimension::D2 => Some(if arrayed { TextureViewDimension::D2Array } else { TextureViewDimension::D2 }),
        ImageDimension::D3 => if arrayed { None } else { Some(TextureViewDimension::D3) },
        ImageDimension::Cube => Some(if arrayed { TextureViewDimension::CubeArray } else { TextureViewDimension::Cube }),
    }
}

/// The sample type of a sampled image of scalars of `kind`; boolean images have none.
/// Float samples are filterable.
pub open spec fn sample_type_of(kind: ScalarKind) -> Option<TextureSampleType> {
    match kind {
        ScalarKind::Sint => Some(TextureSampleType::Sint),
        ScalarKind::Uint => Some(TextureSampleType::Uint),
        ScalarKind::Float => Some(TextureSampleType::Float { filterable: true }),
        ScalarKind::Bool => None,
    }
}

/// The access of a storage image by its access bits: load only, store only, or
/// both; no other bits name an access.
pub open spec fn storage_access_of(bits: u32) -> Option<StorageTextureAccess> {
    if bits == 1 {
        Some(StorageTextureAccess::ReadOnly)
    } else if bits == 2 {
        Some(StorageTextureAccess::WriteOnly)
    } else if bits == 3 {
        Some(StorageTextureAccess::ReadWrite)
    } else {
        None
    }
}

/// The texture format of a storage format: each keeps its name, except that
/// `R8Snorm` becomes `R8Uint`.
pub open spec fn texture_format_of(format: StorageFormat) -> TextureFormat {
    match format {
        StorageFormat::R8Unorm => TextureFormat::R8Unorm,
        StorageFormat::R8Snorm => TextureFormat::R8Uint,
        StorageFormat::R8Uint => TextureFormat::R8Uint,
        StorageFormat::R8Sint => TextureFormat::R8Sint,
        StorageFormat::R16Uint => TextureFormat::R16Uint,
        StorageFormat::R16Sint => TextureFormat::R16Sint,
        StorageFormat::R16Float => TextureFormat::R16Float,
        StorageFormat::Rg8Unorm => TextureFormat::Rg8Unorm,
        StorageFormat::Rg8Snorm => TextureFormat::Rg8Snorm,
        StorageFormat::Rg8Uint => TextureFormat::Rg8Uint,
        StorageFormat::Rg8Sint => TextureFormat::Rg8Sint,
        StorageFormat::R32Uint => TextureFormat::R32Uint,
        StorageFormat::R32Sint => TextureFormat::R32Sint,
        StorageFormat::R32Float => TextureFormat::R32Float,
        StorageFormat::Rg16Uint => TextureFormat::Rg16Uint,
        StorageFormat::Rg16Sint => TextureFormat::Rg16Sint,
        StorageFormat::Rg16Float => TextureFormat::Rg16Float,
        StorageFormat::Rgba8Unorm => TextureFormat::Rgba8Unorm,
        StorageFormat::Rgba8Snorm => TextureFormat::Rgba8Snorm,
        StorageFormat::Rgba8Uint => TextureFormat::Rgba8Uint,
        StorageFormat::Rgba8Sint => TextureFormat::Rgba8Sint,
        StorageFormat::Rgb10a2Unorm => TextureFormat::Rgb10a2Unorm,
        StorageFormat::Rg11b10Float => TextureFormat::Rg11b10Float,
        StorageFormat::Rg32Uint => TextureFormat::Rg32Uint,
        StorageFormat::Rg32Sint => TextureFormat::Rg32Sint,
        StorageFormat::Rg32Float => TextureFormat::Rg32Float,
        StorageFormat::Rgba16Uint => TextureFormat::Rgba16Uint,
        StorageFormat::Rgba16Sint => TextureFormat::Rgba16Sint,
        StorageFormat::Rgba16Float => TextureFormat::Rgba16Float,
        StorageFormat::Rgba32Uint => TextureFormat::Rgba32Uint,
        StorageFormat::Rgba32Sint => TextureFormat::Rgba32Sint,
        StorageFormat::Rgba32Float => TextureFormat::Rgba32Float,
        StorageFormat::R16Unorm => TextureFormat::R16Unorm,
        StorageFormat::R16Snorm => TextureFormat::R16Snorm,
        StorageFormat::Rg16Unorm => TextureFormat::Rg16Unorm,
        StorageFormat::Rg16Snorm => TextureFormat::Rg16Snorm,
        StorageFormat::Rgba16Unorm => TextureFormat::Rgba16Unorm,
        StorageFormat::Rgba16Snorm => TextureFormat::Rgba16Snorm,
    }
}

/// The binding of a shader image, where it has one: a texture of the image's
/// sample type, or a storage texture of its access and format, with the view
/// dimension of the image.
pub open spec fn image_binding_type(dim: ImageDimension, arrayed: bool, class: ImageClass) -> Option<BindingType> {
    match view_dimension_of(dim, arrayed) {
        None => None,
        Some(view_dimension) => match class {
            ImageClass::Sampled { kind, multi } => match sample_type_of(kind) {
                Some(sample_type) => Some(BindingType::Texture { sample_type, view_dimension, multisampled: multi }),
                None => None,
            },
            ImageClass::Depth { multi } => Some(
                BindingType::Texture { sample_type: TextureSampleType::Depth, view_dimension, multisampled: multi },
            ),
            ImageClass::Storage { format, access } => match storage_access_of(access) {
                Some(a) => Some(
                    BindingType::StorageTexture { access: a, format: texture_format_of(format), view_dimension },
                ),
                None => None,
            },
        },
    }
}

/// The texture format of a storage format.
pub fn texture_format(format: StorageFormat) -> (r: TextureFormat)
    ensures
        r == texture_format_of(format),
{
    match format {
        StorageFormat::R8Unorm => TextureFormat::R8Unorm,
        StorageFormat::R8Snorm => TextureFormat::R8Uint,
        StorageFormat::R8Uint => TextureFormat::R8Uint,
        StorageFormat::R8Sint => TextureFormat::R8Sint,
        StorageFormat::R16Uint => TextureFormat::R16Uint,
        StorageFormat::R16Sint => TextureFormat::R16Sint,
        StorageFormat::R16Float => TextureFormat::R16Float,
        StorageFormat::Rg8Unorm => TextureFormat::Rg8Unorm,
        StorageFormat::Rg8Snorm => TextureFormat::Rg8Snorm,
        StorageFormat::Rg8Uint => TextureFormat::Rg8Uint,
        StorageFormat::Rg8Sint => TextureFormat::Rg8Sint,
        StorageFormat::R32Uint => TextureFormat::R32Uint,
        StorageFormat::R32Sint => TextureFormat::R32Sint,
        StorageFormat::R32Float => TextureFormat::R32Float,
        StorageFormat::Rg16Uint => TextureFormat::Rg16Uint,
        StorageFormat::Rg16Sint => TextureFormat::Rg16Sint,
        StorageFormat::Rg16Float => TextureFormat::Rg16Float,
        StorageFormat::Rgba8Unorm => TextureFormat::Rgba8Unorm,
        StorageFormat::Rgba8Snorm => TextureFormat::Rgba8Snorm,
        StorageFormat::Rgba8Uint => TextureFormat::Rgba8Uint,
        StorageFormat::Rgba8Sint => TextureFormat::Rgba8Sint,
        StorageFormat::Rgb10a2Unorm => TextureFormat::Rgb10a2Unorm,
        StorageFormat::Rg11b10Float => TextureFormat::Rg11b10Float,
        StorageFormat::Rg32Uint => TextureFormat::Rg32Uint,
        StorageFormat::Rg32Sint => TextureFormat::Rg32Sint,
        StorageFormat::Rg32Float => TextureFormat::Rg32Float,
        StorageFormat::Rgba16Uint => TextureFormat::Rgba16Uint,
        StorageFormat::Rgba16Sint => TextureFormat::Rgba16Sint,
        StorageFormat::Rgba16Float => TextureFormat::Rgba16Float,
        StorageFormat::Rgba32Uint => TextureFormat::Rgba32Uint,
        StorageFormat::Rgba32Sint => TextureFormat::Rgba32Sint,
        StorageFormat::Rgba32Float => TextureFormat::Rgba32Float,
        StorageFormat::R16Unorm => TextureFormat::R16Unorm,
        StorageFormat::R16Snorm => TextureFormat::R16Snorm,
        StorageFormat::Rg16Unorm => TextureFormat::Rg16Unorm,
        StorageFormat::Rg16Snorm => TextureFormat::Rg16Snorm,
        StorageFormat::Rgba16Unorm => TextureFormat::Rgba16Unorm,
        StorageFormat::Rgba16Snorm => TextureFormat::Rgba16Snorm,
    }
}

/// The binding of a shader image, or `None` for an image that no binding takes.
pub fn create_binding_type_for_image(dim: ImageDimension, arrayed: bool, class: ImageClass) -> (r: Option<BindingType>)
    ensures
        r == image_binding_type(dim, arrayed, class),
{
    let view_dimension = match dim {
        ImageDimension::D1 => if arrayed {
            return None;
        } else {
            TextureViewDimension::D1
        },
        ImageDimension::D2 => if arrayed {
            TextureViewDimension::D2Array
        } else {
            TextureViewDimension::D2
        },
        ImageDimension::D3 => if arrayed {
            return None;
        } else {
            TextureViewDimension::D3
        },
        ImageDimension::Cube => if arrayed {
            TextureViewDimension::CubeArray
        } else {
            TextureViewDimension::Cube
        },
    };
    match class {
        ImageClass::Sampled { kind, multi } => {
            let sample_type = match kind {
                ScalarKind::Sint => TextureSampleType::Sint,
                ScalarKind::Uint => TextureSampleType::Uint,
                ScalarKind::Float => TextureSampleType::Float { filterable: true },
                ScalarKind::Bool => {
                    return None;
                },
            };
            Some(BindingType::Texture { sample_type, view_dimension, multisampled: multi })
        },
        ImageClass::Depth { multi } => Some(
            BindingType::Texture { sample_type: TextureSampleType::Depth, view_dimension, multisampled: multi },
        ),
        ImageClass::Storage { format, access } => {
            let access = if access == 1 {
                StorageTextureAccess::ReadOnly
            } else if access == 2 {
                StorageTextureAccess::WriteOnly
            } else if access == 3 {
                StorageTextureAccess::ReadWrite
            } else {
                return None;
            };
            Some(BindingType::StorageTexture { access, format: texture_format(format), view_dimension })
        },
    }
}

/// The binding of a sampler: a comparison sampler filters, another does not.
pub fn create_binding_type_for_sampler(comparison: bool) -> (r: BindingType)
    ensures
        r == BindingType::Sampler(
            if comparison {
                SamplerBindingType::Filtering
            } else {
                SamplerBindingType::NonFiltering
            },
        ),
{
    if comparison {
        BindingType::Sampler(SamplerBindingType::Filtering)
    } else {
        BindingType::Sampler(SamplerBindingType::NonFiltering)
    }
}

/// The number of components of a shader vector or matrix side.
#[derive(Clone, Copy, Debug, PartialEq, Eq, Structural)]
pub enum VectorSize {
    Bi,
    Tri,
    Quad,
}

/// The type of a shader uniform, as its binding is chosen: scalar, vector and
/// matrix widths are in bytes, a struct gives its span in bytes.
#[derive(Clone, Copy, Debug, PartialEq, Eq, Structural)]
pub enum TypeInner {
    Scalar { kind: ScalarKind, width: u8 },
    Vector { size: VectorSize, kind: ScalarKind, width: u8 },
    Matrix { columns: VectorSize, rows: VectorSize, width: u8 },
    Struct { span: u32 },
    Image { dim: ImageDimension, arrayed: bool, class: ImageClass },
    Sampler { comparison: bool },
    /// Any other type: arrays, atomics, pointers and the like.
    Other,
}

/// The number of components a vector size names.
pub open spec fn components(size: VectorSize) -> int {
    match size {
        VectorSize::Bi => 2,
        VectorSize::Tri => 3,
        VectorSize::Quad => 4,
    }
}

/// The bytes a uniform of type `t` takes in a uniform buffer, for the types
/// held in one: a scalar its width, a vector and a matrix their components
/// times the width, a struct its span.
pub open spec fn uniform_size(t: TypeInner) -> Option<int> {
    match t {
        TypeInner::Scalar { width, .. } => Some(width as int),
        TypeInner::Vector { size, width, .. } => Some(components(size) * width),
        TypeInner::Matrix { columns, rows, width } => Some(components(columns) * components(rows) * width),
        TypeInner::Struct { span } => Some(span as int),
        _ => None,
    }
}

/// The binding a uniform of type `t` takes: a uniform buffer of its size for
/// the types held in one; otherwise an image's or a sampler's binding; none for
/// any other type.
pub open spec fn binding_type_of(t: TypeInner) -> Option<BindingType> {
    match uniform_size(t) {
        Some(n) => Some(BindingType::UniformBuffer { min_binding_size: if n == 0 { None } else { Some(n as u64) } }),
        None => match t {
            TypeInner::Image { dim, arrayed, class } => image_binding_type(dim, arrayed, class),
            TypeInner::Sampler { comparison } => Some(
                BindingType::Sampler(
                    if comparison {
                        SamplerBindingType::Filtering
                    } else {
                        SamplerBindingType::NonFiltering
                    },
                ),
            ),
            _ => None,
        },
    }
}

/// A vector uniform takes a buffer of its component count times its width, and a
/// matrix one of columns times rows times its width, counting 2, 3 and 4 for
/// the sizes `Bi`, `Tri` and `Quad`; zero bytes give no minimum size. A matrix's
/// size does not change when its columns and rows are swapped.
pub proof fn law_vector_and_matrix_sizes(c: VectorSize, r: VectorSize, k: ScalarKind, w: u8)
    ensures
        ({
            let n = |v: VectorSize| if v == VectorSize::Bi { 2int } else if v == VectorSize::Tri { 3int } else { 4int };
            let buffer = |bytes: int| Some(BindingType::UniformBuffer {
                min_binding_size: if bytes == 0 { None } else { Some(bytes as u64) },
            });
            &&& binding_type_of(TypeInner::Vector { size: c, kind: k, width: w }) == buffer(n(c) * w)
            &&& binding_type_of(TypeInner::Matrix { columns: c, rows: r, width: w }) == buffer(n(c) * n(r) * w)
        }),
        binding_type_of(TypeInner::Matrix { columns: c, rows: r, width: w }) == binding_type_of(
            TypeInner::Matrix { columns: r, rows: c, width: w },
        ),
{
}

/// A scalar uniform takes a buffer of its width and a struct one of its span
/// (no minimum size for zero bytes); a sampler takes a filtering binding exactly
/// when it compares; an image takes its image binding; any other type none.
pub proof fn law_other_binding_types(k: ScalarKind, w: u8, span: u32, comparison: bool, dim: ImageDimension, arrayed: bool, class: ImageClass)
    ensures
        binding_type_of(TypeInner::Scalar { kind: k, width: w }) == Some(
            BindingType::UniformBuffer { min_binding_size: if w == 0 { None } else { Some(w as u64) } },
        ),
        binding_type_of(TypeInner::Struct { span }) == Some(
            BindingType::UniformBuffer { min_binding_size: if span == 0 { None } else { Some(span as u64) } },
        ),
        comparison ==> binding_type_of(TypeInner::Sampler { comparison }) == Some(
            BindingType::Sampler(SamplerBindingType::Filtering),
        ),
        !comparison ==> binding_type_of(TypeInner::Sampler { comparison }) == Some(
            BindingType::Sampler(SamplerBindingType::NonFiltering),
        ),
        binding_type_of(TypeInner::Image { dim, arrayed, class }) == image_binding_type(dim, arrayed, class),
        binding_type_of(TypeInner::Other) is None,
{
}

/// How images bind: arrays of one- and three-dimensional images, boolean
/// sampled images and storage images whose access bits are not 1, 2 or 3 take
/// no binding; a two-dimensional or cube image takes a view of its own
/// dimension, or its array view when arrayed; a sampled image samples its kind
/// (floats filterable), a depth image depth, keeping whether it is
/// multisampled; a storage image's access is read for 1, write for 2 and both
/// for 3.
pub proof fn law_image_bindings(kind: ScalarKind, multi: bool, format: StorageFormat, access: u32, arrayed: bool)
    ensures
        arrayed ==> image_binding_type(ImageDimension::D1, arrayed, ImageClass::Depth { multi }) is None,
        arrayed ==> image_binding_type(ImageDimension::D3, arrayed, ImageClass::Depth { multi }) is None,
        image_binding_type(ImageDimension::D2, false, ImageClass::Sampled { kind: ScalarKind::Bool, multi }) is None,
        !(access == 1 || access == 2 || access == 3) ==> image_binding_type(
            ImageDimension::D2,
            false,
            ImageClass::Storage { format, access },
        ) is None,
        image_binding_type(ImageDimension::D2, arrayed, ImageClass::Depth { multi }) == Some(
            BindingType::Texture {
                sample_type: TextureSampleType::Depth,
                view_dimension: if arrayed { TextureViewDimension::D2Array } else { TextureViewDimension::D2 },
                multisampled: multi,
            },
        ),
        image_binding_type(ImageDimension::Cube, arrayed, ImageClass::Sampled { kind: ScalarKind::Float, multi })
            == Some(
            BindingType::Texture {
                sample_type: TextureSampleType::Float { filterable: true },
                view_dimension: if arrayed { TextureViewDimension::CubeArray } else { TextureViewDimension::Cube },
                multisampled: multi,
            },
        ),
        image_binding_type(ImageDimension::D3, false, ImageClass::Sampled { kind: ScalarKind::Sint, multi }) == Some(
            BindingType::Texture {
                sample_type: TextureSampleType::Sint,
                view_dimension: TextureViewDimension::D3,
                multisampled: multi,
            },
        ),
        image_binding_type(ImageDimension::D1, false, ImageClass::Sampled { kind: ScalarKind::Uint, multi }) == Some(
            BindingType::Texture {
                sample_type: TextureSampleType::Uint,
                view_dimension: TextureViewDimension::D1,
                multisampled: multi,
            },
        ),
        access == 1 ==> image_binding_type(ImageDimension::D2, false, ImageClass::Storage { format, access })
            == Some(
            BindingType::StorageTexture {
                access: StorageTextureAccess::ReadOnly,
                format: texture_format_of(format),
                view_dimension: TextureViewDimension::D2,
            },
        ),
        access == 2 ==> image_binding_type(ImageDimension::D2, false, ImageClass::Storage { format, access })
            == Some(
            BindingType::StorageTexture {
                access: StorageTextureAccess::WriteOnly,
                format: texture_format_of(format),
                view_dimension: TextureViewDimension::D2,
            },
        ),
        access == 3 ==> image_binding_type(ImageDimension::D2, false, ImageClass::Storage { format, access })
            == Some(
            BindingType::StorageTexture {
                access: StorageTextureAccess::ReadWrite,
                format: texture_format_of(format),
                view_dimension: TextureViewDimension::D2,
            },
        ),
{
}

/// The number of components of a vector size.
pub fn component_count(size: VectorSize) -> (r: u64)
    ensures
        r == components(size),
        2 <= r <= 4,
{
    match size {
        VectorSize::Bi => 2,
        VectorSize::Tri => 3,
        VectorSize::Quad => 4,
    }
}

/// The bytes of a matrix: columns times rows times the width.
fn matrix_size(columns: VectorSize, rows: VectorSize, width: u8) -> (r: u64)
    ensures
        r == components(columns) * components(rows) * width,
{
    let c = component_count(columns);
    let k = component_count(rows);
    let w = width as u64;
    assert(c * k <= 16 && c * k * w <= 16 * 255) by (nonlinear_arith)
        requires
            2 <= c <= 4,
            2 <= k <= 4,
            w <= 255,
    ;
    c * k * w
}

/// A minimum binding size: none for zero bytes.
fn nonzero_size(n: u64) -> (r: Option<u64>)
    ensures
        r == (if n == 0 { None } else { Some(n) }),
{
    if n == 0 {
        None
    } else {
        Some(n)
    }
}

/// The binding a shader uniform of type `t` takes, or `None` for a type that no
/// binding takes.
pub fn create_binding_type(t: &TypeInner) -> (r: Option<BindingType>)
    ensures
        r == binding_type_of(*t),
{
    let size: Option<u64> = match t {
        TypeInner::Scalar { width, .. } => Some(*width as u64),
        TypeInner::Vector { size, width, .. } => Some(component_count(*size) * (*width as u64)),
        TypeInner::Matrix { columns, rows, width } => Some(matrix_size(*columns, *rows, *width)),
        TypeInner::Struct { span } => Some(*span as u64),
        _ => None,
    };
    match size {
        Some(n) => Some(BindingType::UniformBuffer { min_binding_size: nonzero_size(n) }),
        None => match t {
            TypeInner::Image { dim, arrayed, class } => create_binding_type_for_image(*dim, *arrayed, *class),
            TypeInner::Sampler { comparison } => Some(create_binding_type_for_sampler(*comparison)),
            _ => None,
        },
    }
}

} // verus!
