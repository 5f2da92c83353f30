//! Vertex buffer layouts: the attributes of a vertex, their sizes and their
//! byte offsets within the vertex.
use vstd::prelude::*;

verus! {

/// The type of one vertex attribute as a shader sees it.
#[derive(Debug, Clone, Copy, PartialEq, Eq, Structural)]
pub enum ShaderDataType {
    Float,
    Float2,
    Float3,
    Float4,
    Int,
    Int2,
    Int3,
    Int4,
}

/// Size in bytes of an attribute of type `t`: four bytes per component.
pub open spec fn data_type_size(t: ShaderDataType) -> u32 {
    match t {
        ShaderDataType::Float => 4,
        ShaderDataType::Float2 => 8,
        ShaderDataType::Float3 => 12,
        ShaderDataType::Float4 => 16,
        ShaderDataType::Int => 4,
        ShaderDataType::Int2 => 8,
        ShaderDataType::Int3 => 12,
        ShaderDataType::Int4 => 16,
    }
}

impl ShaderDataType {
    /// Size in bytes of an attribute of this type.
    pub fn size(&self) -> (r: u32)
        ensures
            r == data_type_size(*self),
    {
        match self {
            ShaderDataType::Float => 4,
            ShaderDataType::Float2 => 4 * 2,
            ShaderDataType::Float3 => 4 * 3,
            ShaderDataType::Float4 => 4 * 4,
            ShaderDataType::Int => 4,
            ShaderDataType::Int2 => 4 * 2,
            ShaderDataType::Int3 => 4 * 3,
            ShaderDataType::Int4 => 4 * 4,
        }
    }
}

/// One named attribute of a vertex.
#[derive(Debug)]
pub struct BufferElement {
    pub name: &'static str,
    pub data_type: ShaderDataType,
    pub offset: u32,
    pub size: u32,
    pub normalized: bool,
}

/// The attributes of a vertex in order, and the size of a whole vertex.
#[derive(Debug)]
pub struct BufferLayout {
    pub elements: Vec<BufferElement>,
    pub stride: u32,
}

/// Total size in bytes of a sequence of attributes.
pub open spec fn total_size(s: Seq<BufferElement>) -> int
    decreases s.len(),
{
    if s.len() == 0 {
        0
    } else {
        total_size(s.drop_last()) + s.last().size
    }
}

/// `laid` is `given` with every attribute placed right after the previous
/// one: attribute `i` starts at the total size of the attributes before it;
/// nothing but the offsets changes.
pub open spec fn laid_out(given: Seq<BufferElement>, laid: Seq<BufferElement>) -> bool {
    &&& laid.len() == given.len()
    &&& forall|i: int|
        0 <= i < given.len() ==> {
            &&& (#[trigger] laid[i]).name == given[i].name
            &&& laid[i].data_type == given[i].data_type
            &&& laid[i].size == given[i].size
            &&& laid[i].normalized == given[i].normalized
            &&& laid[i].offset == total_size(given.take(i))
        }
}

proof fn lemma_total_size_take_step(s: Seq<BufferElement>, i: int)
    requires
        0 <= i < s.len(),
    ensures
        total_size(s.take(i + 1)) == total_size(s.take(i)) + s[i].size,
{
    assert(s.take(i + 1).drop_last() =~= s.take(i));
}

proof fn lemma_total_size_prefix_bounded(s: Seq<BufferElement>, i: int)
    requires
        0 <= i <= s.len(),
    ensures
        total_size(s.take(i)) <= total_size(s),
    decreases s.len() - i,
{
    if i < s.len() {
        lemma_total_size_take_step(s, i);
        lemma_total_size_prefix_bounded(s, i + 1);
    } else {
        assert(s.take(i) =~= s);
    }
}

/// In a laid-out layout each attribute starts where the previous one ends,
/// and the stride is where the last one ends.
pub proof fn lemma_layout_contiguous(given: Seq<BufferElement>, laid: Seq<BufferElement>)
    requires
        laid_out(given, laid),
    ensures
        laid.len() > 0 ==> laid[0].offset == 0,
        forall|i: int|
            0 <= i < laid.len() - 1 ==> #[trigger] laid[i + 1].offset == laid[i].offset + laid[i].size,
        laid.len() > 0 ==> total_size(given) == laid[laid.len() - 1].offset + laid[laid.len() - 1].size,
{
    if laid.len() > 0 {
        assert(given.take(0) =~= Seq::<BufferElement>::empty());
        let n = given.len() as int;
        lemma_total_size_take_step(given, n - 1);
        assert(given.take(n) =~= given);
    }
    assert forall|i: int| 0 <= i < laid.len() - 1 implies #[trigger] laid[i + 1].offset == laid[i].offset
        + laid[i].size by {
        lemma_total_size_take_step(given, i);
    }
}

impl BufferLayout {
    /// The layout of `elements` in order, with offsets and stride computed.
    pub fn new(elements: Vec<BufferElement>) -> (r: BufferLayout)
        requires
            total_size(elements@) <= u32::MAX,
        ensures
            laid_out(elements@, r.elements@),
            r.stride == total_size(elements@),
    {
        let mut res = BufferLayout { elements, stride: 0 };
        res.calculate_offsets_and_stride();
        return res;
    }

    fn calculate_offsets_and_stride(&mut self)
        requires
            total_size(old(self).elements@) <= u32::MAX,
        ensures
            laid_out(old(self).elements@, final(self).elements@),
            final(self).stride == total_size(old(self).elements@),
    {
        let ghost given = self.elements@;
        let mut offset: u32 = 0;
        self.stride = 0;
        let n = self.elements.len();
        let mut i: usize = 0;
        while i < n
            invariant
                n == given.len(),
                self.elements@.len() == n,
                i <= n,
                total_size(given) <= u32::MAX,
                offset == total_size(given.take(i as int)),
                self.stride == offset,
                forall|k: int|
                    0 <= k < n ==> {
                        &&& (#[trigger] self.elements@[k]).name == given[k].name
                        &&& self.elements@[k].data_type == given[k].data_type
                        &&& self.elements@[k].size == given[k].size
                        &&& self.elements@[k].normalized == given[k].normalized
                    },
                forall|k: int| 0 <= k < i ==> (#[trigger] self.elements@[k]).offset == total_size(given.take(k)),
            decreases n - i,
        {
            proof {
                lemma_total_size_take_step(given, i as int);
                lemma_total_size_prefix_bounded(given, i as int + 1);
            }
            let size = self.elements[i].size;
            let element = &mut self.elements[i];
            element.offset = offset;
            offset += size;
            self.stride += size;
            i += 1;
        }
        assert(given.take(n as int) =~= given);
    }
}

impl BufferElement {
    /// An attribute whose integer values the shader sees normalized.
    pub fn new_normalized(name: &'static str, data_type: ShaderDataType) -> (r: BufferElement)
        ensures
            r.name == name,
            r.data_type == data_type,
            r.offset == 0,
            r.size == data_type_size(data_type),
            r.normalized,
    {
        let size = data_type.size();
        return BufferElement { name, data_type, offset: 0, size: size, normalized: true };
    }

    /// An attribute the shader sees as stored.
    pub fn new(name: &'static str, data_type: ShaderDataType) -> (r: BufferElement)
        ensures
            r.name == name,
            r.data_type == data_type,
            r.offset == 0,
            r.size == data_type_size(data_type),
            !r.normalized,
    {
        let size = data_type.size();
        return BufferElement { name, data_type, offset: 0, size: size, normalized: false };
    }
}

} // verus!
