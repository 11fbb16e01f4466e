//! Shader modules and the descriptor layouts derived from them.

use crate::error::ResourceError;
use crate::render::descriptor::{
    layout_binding, spec_layout_binding, DescriptorInfo, DescriptorType, LayoutBinding,
};
use crate::render::pool::{is_pool_request, pool_sizes, spec_count, DescriptorSetRequest};
use vstd::prelude::*;

verus! {

/// The pipeline stage a shader runs in.
#[derive(Clone, Copy, Debug, PartialEq, Eq, Structural)]
pub enum ShaderKind {
    Vertex,
    Fragment,
    Compute,
}

/// Stage bit of the vertex stage.
pub const STAGE_VERTEX: u32 = 0x1;

/// Stage bit of the fragment stage.
pub const STAGE_FRAGMENT: u32 = 0x10;

/// Stage bit of the compute stage.
pub const STAGE_COMPUTE: u32 = 0x20;

impl ShaderKind {
    /// The stage bit of each kind.
    pub open spec fn spec_stage_flag(self) -> u32 {
        match self {
            ShaderKind::Vertex => STAGE_VERTEX,
            ShaderKind::Fragment => STAGE_FRAGMENT,
            ShaderKind::Compute => STAGE_COMPUTE,
        }
    }

    /// The stage bit under which the graphics API knows this kind.
    pub fn to_vk_shader_stage_flag(&self) -> (flag: u32)
        ensures
            flag == self.spec_stage_flag(),
    {
        match self {
            ShaderKind::Vertex => STAGE_VERTEX,
            ShaderKind::Fragment => STAGE_FRAGMENT,
            ShaderKind::Compute => STAGE_COMPUTE,
        }
    }
}

/// One binding that reflection found, with the set and index it is bound at.
#[derive(Clone, Debug)]
pub struct ReflectedBinding {
    pub set: u32,
    pub binding: u32,
    pub info: DescriptorInfo,
}

/// What layout building reads of a reflected binding.
pub ghost struct BindingModel {
    pub set: u32,
    pub binding: u32,
    pub ty: u32,
    pub name: Seq<char>,
}

impl View for ReflectedBinding {
    type V = BindingModel;

    open spec fn view(&self) -> BindingModel {
        BindingModel {
            set: self.set,
            binding: self.binding,
            ty: self.info.ty,
            name: self.info.name@,
        }
    }
}

/// The reflected bindings of a shader, in the order reflection lists them:
/// by set index, and within a set by binding index.
pub type StageDescriptorSetLayouts = Vec<ReflectedBinding>;

/// For each binding index of one set, the resolved descriptor type.
pub type BindingTypes = Vec<(u32, DescriptorType)>;

/// A compiled shader entry point with its reflected bindings.
pub struct Shader {
    pub kind: ShaderKind,
    pub spirv: Vec<u8>,
    pub spirv_descripor_set_layouts: StageDescriptorSetLayouts,
    pub entry_point: String,
}

/// What pipeline construction needs to know of a shader stage.
pub struct ShaderStageInfo {
    /// The stage bit.
    pub stage: u32,
    /// The entry point's name.
    pub name: String,
    /// The bytecode.
    pub code: Vec<u8>,
}

/// The models of a sequence of reflected bindings.
pub open spec fn bindings_model(bindings: Seq<ReflectedBinding>) -> Seq<BindingModel> {
    bindings.map_values(|b: ReflectedBinding| b@)
}

/// Number of descriptor sets a shader addresses: one more than the highest
/// set index among its bindings, and zero where it has none.
pub open spec fn spec_set_count(bindings: Seq<BindingModel>) -> nat
    decreases bindings.len(),
{
    if bindings.len() == 0 {
        0
    } else {
        let before = spec_set_count(bindings.drop_last());
        let here = (bindings.last().set + 1) as nat;
        if before >= here {
            before
        } else {
            here
        }
    }
}

/// The layout of set `set`: the layout bindings of the bindings bound in that
/// set, in their order, or the failure of the first binding that cannot be
/// resolved.
pub open spec fn spec_set_layout(bindings: Seq<BindingModel>, set: u32) -> Result<
    Seq<LayoutBinding>,
    ResourceError,
>
    decreases bindings.len(),
{
    if bindings.len() == 0 {
        Ok(Seq::empty())
    } else {
        let before = spec_set_layout(bindings.drop_last(), set);
        let b = bindings.last();
        if b.set != set {
            before
        } else {
            match before {
                Err(e) => Err(e),
                Ok(done) => match spec_layout_binding(b.binding, b.ty, b.name) {
                    Ok(binding) => Ok(done.push(binding)),
                    Err(e) => Err(e),
                },
            }
        }
    }
}

/// The binding-index-to-type entries of a layout.
pub open spec fn spec_binding_types(layout: Seq<LayoutBinding>) -> Seq<(u32, DescriptorType)> {
    layout.map_values(|b: LayoutBinding| (b.binding, b.descriptor_type))
}

/// The layouts and type maps of the first `layouts.len()` sets of a shader
/// with bindings `bindings`: entry `s` of each belongs to set `s`.
pub open spec fn describes_sets(
    bindings: Seq<BindingModel>,
    layouts: Seq<Vec<LayoutBinding>>,
    types: Seq<BindingTypes>,
) -> bool {
    &&& types.len() == layouts.len()
    &&& forall|s: int|
        0 <= s < layouts.len() ==> spec_set_layout(bindings, s as u32) == Ok::<
            Seq<LayoutBinding>,
            ResourceError,
        >((#[trigger] layouts[s])@)
    &&& forall|s: int|
        0 <= s < layouts.len() ==> (#[trigger] types[s])@ == spec_binding_types(layouts[s]@)
}

/// Whether set `set` is the first whose layout cannot be built, and fails with `e`.
pub open spec fn first_failure(bindings: Seq<BindingModel>, set: int, e: ResourceError) -> bool {
    &&& 0 <= set < spec_set_count(bindings)
    &&& spec_set_layout(bindings, set as u32) == Err::<Seq<LayoutBinding>, ResourceError>(e)
    &&& forall|s: int| 0 <= s < set ==> (#[trigger] spec_set_layout(bindings, s as u32)) is Ok
}

impl Shader {
    /// The reflected bindings as layout building reads them.
    pub open spec fn layout_model(&self) -> Seq<BindingModel> {
        bindings_model(self.spirv_descripor_set_layouts@)
    }

    /// Builds a shader module from bytecode and what reflection found in it.
    ///
    /// `reflected` is `None` where reflection could not read the bytecode;
    /// the module is then refused as malformed. Otherwise the module keeps
    /// the bytecode, the kind, the entry point and the bindings as given.
    pub fn new(
        spirv: &[u8],
        kind: ShaderKind,
        entry_point: &str,
        reflected: Option<StageDescriptorSetLayouts>,
    ) -> (r: Result<Shader, ResourceError>)
        ensures
            reflected is None ==> r is Err && r->Err_0 == ResourceError::MalformedBytecode,
            reflected is Some ==> r is Ok && r->Ok_0.kind == kind && r->Ok_0.spirv@ == spirv@
                && r->Ok_0.entry_point@ == entry_point@
                && r->Ok_0.spirv_descripor_set_layouts == reflected->Some_0,
    {
        match reflected {
            None => Err(ResourceError::MalformedBytecode),
            Some(bindings) => Ok(
                Shader {
                    kind,
                    spirv: vstd::slice::slice_to_vec(spirv),
                    spirv_descripor_set_layouts: bindings,
                    entry_point: entry_point.to_owned(),
                },
            ),
        }
    }

    /// What pipeline construction needs of this stage: the stage bit of the
    /// shader's kind, the entry point and the bytecode.
    pub fn ext_shader_create_info(&self) -> (info: ShaderStageInfo)
        ensures
            info.stage == self.kind.spec_stage_flag(),
            info.name@ == self.entry_point@,
            info.code@ == self.spirv@,
    {
        ShaderStageInfo {
            stage: self.kind.to_vk_shader_stage_flag(),
            name: self.entry_point.clone(),
            code: self.spirv.clone(),
        }
    }

    /// Whether the bindings are listed by set index and, within a set, by
    /// binding index, as reflection lists them.
    pub fn is_ordered(&self) -> (r: bool)
        ensures
            r == bindings_ordered(self.layout_model()),
    {
        let n: usize = self.spirv_descripor_set_layouts.len();
        let mut i: usize = 1;
        while i < n
            invariant
                n == self.spirv_descripor_set_layouts@.len(),
                1 <= i,
                forall|a: int, b: int|
                    0 <= a < b < i && b < n ==> comes_before(
                        #[trigger] self.layout_model()[a],
                        #[trigger] self.layout_model()[b],
                    ),
            decreases n - i,
        {
            let previous = &self.spirv_descripor_set_layouts[i - 1];
            let current = &self.spirv_descripor_set_layouts[i];
            let in_order = previous.set < current.set || (previous.set == current.set
                && previous.binding < current.binding);
            if !in_order {
                assert(!comes_before(self.layout_model()[i - 1], self.layout_model()[i as int]));
                return false;
            }
            assert forall|a: int, b: int| 0 <= a < b < i + 1 && b < n implies comes_before(
                #[trigger] self.layout_model()[a],
                #[trigger] self.layout_model()[b],
            ) by {
                if b == i && a < i - 1 {
                    assert(comes_before(self.layout_model()[a], self.layout_model()[i - 1]));
                }
            }
            i += 1;
        }
        true
    }

    /// Number of descriptor sets the shader addresses.
    pub fn set_count(&self) -> (count: u64)
        ensures
            count == spec_set_count(self.layout_model()),
    {
        let n: usize = self.spirv_descripor_set_layouts.len();
        let mut count: u64 = 0;
        let mut i: usize = 0;
        while i < n
            invariant
                n == self.spirv_descripor_set_layouts@.len(),
                i <= n,
                count == spec_set_count(self.layout_model().take(i as int)),
                count <= 0x1_0000_0000,
            decreases n - i,
        {
            let here: u64 = self.spirv_descripor_set_layouts[i].set as u64 + 1;
            proof {
                let m = self.layout_model();
                assert(m.take(i + 1).drop_last() =~= m.take(i as int));
                assert(m.take(i + 1).last() == m[i as int]);
            }
            if here > count {
                count = here;
            }
            i += 1;
        }
        proof {
            assert(self.layout_model().take(n as int) =~= self.layout_model());
        }
        count
    }

    /// The layout of one set: a layout binding for each binding bound in it.
    pub fn set_layout(&self, set: u32) -> (r: Result<Vec<LayoutBinding>, ResourceError>)
        ensures
            spec_set_layout(self.layout_model(), set) == match r {
                Ok(layout) => Ok::<Seq<LayoutBinding>, ResourceError>(layout@),
                Err(e) => Err(e),
            },
    {
        let n: usize = self.spirv_descripor_set_layouts.len();
        let mut layout: Vec<LayoutBinding> = Vec::new();
        let mut failure: Option<ResourceError> = None;
        let mut i: usize = 0;
        while i < n
            invariant
                n == self.spirv_descripor_set_layouts@.len(),
                i <= n,
                spec_set_layout(self.layout_model().take(i as int), set) == match failure {
                    None => Ok::<Seq<LayoutBinding>, ResourceError>(layout@),
                    Some(e) => Err(e),
                },
            decreases n - i,
        {
            let reflected = &self.spirv_descripor_set_layouts[i];
            proof {
                let m = self.layout_model();
                assert(m.take(i + 1).drop_last() =~= m.take(i as int));
                assert(m.take(i + 1).last() == m[i as int]);
            }
            if reflected.set == set && failure.is_none() {
                match layout_binding(reflected.binding, &reflected.info) {
                    Ok(binding) => {
                        layout.push(binding);
                    },
                    Err(e) => {
                        failure = Some(e);
                    },
                }
            }
            i += 1;
        }
        proof {
            assert(self.layout_model().take(n as int) =~= self.layout_model());
        }
        match failure {
            None => Ok(layout),
            Some(e) => Err(e),
        }
    }

    /// Derives the descriptor-set layouts of the shader.
    ///
    /// On success there is one layout, and one type map, for each set index
    /// below the set count, an empty one where the shader binds nothing in the
    /// set. The call fails where some set's layout cannot be built, with the
    /// failure of the first such set.
    pub fn create_descriptor_set_layouts(&self) -> (r: Result<
        (Vec<Vec<LayoutBinding>>, Vec<BindingTypes>),
        ResourceError,
    >)
        ensures
            match r {
                Ok((layouts, types)) => layouts@.len() == spec_set_count(self.layout_model())
                    && describes_sets(self.layout_model(), layouts@, types@),
                Err(e) => exists|set: int| #[trigger] first_failure(self.layout_model(), set, e),
            },
            r is Ok <==> forall|i: int|
                0 <= i < self.layout_model().len() ==> binding_supported(
                    #[trigger] self.layout_model()[i],
                ),
    {
        let count: u64 = self.set_count();
        proof {
            lemma_set_count(self.layout_model());
            lemma_layouts_succeed_iff_supported(self.layout_model());
        }
        let mut layouts: Vec<Vec<LayoutBinding>> = Vec::new();
        let mut types: Vec<BindingTypes> = Vec::new();
        let mut set: u64 = 0;
        while set < count
            invariant
                set <= count,
                count == spec_set_count(self.layout_model()),
                count <= 0x1_0000_0000,
                layouts@.len() == set,
                describes_sets(self.layout_model(), layouts@, types@),
            decreases count - set,
        {
            match self.set_layout(set as u32) {
                Ok(layout) => {
                    let entries = binding_types(&layout);
                    layouts.push(layout);
                    types.push(entries);
                },
                Err(e) => {
                    proof {
                        assert forall|s: int| 0 <= s < set implies (#[trigger] spec_set_layout(
                            self.layout_model(),
                            s as u32,
                        )) is Ok by {
                            assert(spec_set_layout(self.layout_model(), s as u32) == Ok::<
                                Seq<LayoutBinding>,
                                ResourceError,
                            >(layouts@[s]@));
                        }
                        assert(first_failure(self.layout_model(), set as int, e));
                        assert(!(spec_set_layout(self.layout_model(), (set as int) as u32) is Ok));
                        lemma_layouts_succeed_iff_supported(self.layout_model());
                    }
                    return Err(e);
                },
            }
            set += 1;
        }
        proof {
            assert forall|s: int| 0 <= s < count implies (#[trigger] spec_set_layout(
                self.layout_model(),
                s as u32,
            )) is Ok by {
                assert(spec_set_layout(self.layout_model(), s as u32) == Ok::<
                    Seq<LayoutBinding>,
                    ResourceError,
                >(layouts@[s]@));
            }
        }
        Ok((layouts, types))
    }

    /// Sizes the descriptor pool for the given type maps and asks for one set
    /// per layout handle.
    ///
    /// The pool request has one entry for each descriptor type that occurs in
    /// the type maps, with the number of its occurrences, and allows a single
    /// set allocation.
    pub fn create_descriptor_sets(
        &self,
        descriptor_set_layouts: &Vec<u64>,
        set_layout_info: &Vec<BindingTypes>,
    ) -> (request: DescriptorSetRequest)
        requires
            forall|ty: DescriptorType| #[trigger] spec_count(set_layout_info@, ty) <= u32::MAX,
        ensures
            is_pool_request(request.pool_sizes@, set_layout_info@),
            request.max_sets == 1,
            request.set_count == descriptor_set_layouts@.len(),
    {
        let pool_sizes = pool_sizes(set_layout_info);
        DescriptorSetRequest {
            pool_sizes,
            max_sets: 1,
            set_count: descriptor_set_layouts.len(),
        }
    }
}

/// The set count is above every bound set index, is reached by one of them
/// unless there are no bindings, and fits the range of set indices.
pub proof fn lemma_set_count(bindings: Seq<BindingModel>)
    ensures
        forall|i: int| 0 <= i < bindings.len() ==> (#[trigger] bindings[i]).set < spec_set_count(bindings),
        bindings.len() == 0 ==> spec_set_count(bindings) == 0,
        bindings.len() > 0 ==> exists|i: int|
            0 <= i < bindings.len() && (#[trigger] bindings[i]).set + 1 == spec_set_count(bindings),
        spec_set_count(bindings) <= 0x1_0000_0000,
    decreases bindings.len(),
{
    if bindings.len() > 0 {
        let front = bindings.drop_last();
        lemma_set_count(front);
        let last = bindings.len() - 1;
        assert forall|i: int| 0 <= i < bindings.len() implies (#[trigger] bindings[i]).set
            < spec_set_count(bindings) by {
            if i < last {
                assert(front[i] == bindings[i]);
            }
        }
        if spec_set_count(front) >= bindings.last().set + 1 {
            let i = choose|i: int|
                0 <= i < front.len() && (#[trigger] front[i]).set + 1 == spec_set_count(front);
            assert(front[i] == bindings[i]);
            assert(bindings[i].set + 1 == spec_set_count(bindings));
        } else {
            assert(bindings[last].set + 1 == spec_set_count(bindings));
        }
    }
}

/// Whether a reflected binding can be resolved to a layout binding.
pub open spec fn binding_supported(b: BindingModel) -> bool {
    spec_layout_binding(b.binding, b.ty, b.name) is Ok
}

/// A set's layout can be built exactly when every binding bound in the set
/// can be resolved.
pub proof fn lemma_set_layout_ok(bindings: Seq<BindingModel>, set: u32)
    ensures
        spec_set_layout(bindings, set) is Ok <==> forall|i: int|
            0 <= i < bindings.len() && (#[trigger] bindings[i]).set == set ==> binding_supported(
                bindings[i],
            ),
    decreases bindings.len(),
{
    if bindings.len() > 0 {
        let front = bindings.drop_last();
        lemma_set_layout_ok(front, set);
        if spec_set_layout(bindings, set) is Ok {
            assert forall|i: int|
                0 <= i < bindings.len() && (#[trigger] bindings[i]).set == set implies binding_supported(
                bindings[i],
            ) by {
                if i < front.len() {
                    assert(front[i] == bindings[i]);
                }
            }
        }
        if forall|i: int|
            0 <= i < bindings.len() && (#[trigger] bindings[i]).set == set ==> binding_supported(
                bindings[i],
            ) {
            assert forall|i: int|
                0 <= i < front.len() && (#[trigger] front[i]).set == set implies binding_supported(
                front[i],
            ) by {
                assert(front[i] == bindings[i]);
            }
            assert(bindings.last() == bindings[bindings.len() - 1]);
        }
    }
}

/// The layouts of all sets can be built exactly when every reflected binding
/// can be resolved.
pub proof fn lemma_layouts_succeed_iff_supported(bindings: Seq<BindingModel>)
    ensures
        (forall|s: int|
            0 <= s < spec_set_count(bindings) ==> (#[trigger] spec_set_layout(
                bindings,
                s as u32,
            )) is Ok) <==> (forall|i: int|
            0 <= i < bindings.len() ==> binding_supported(#[trigger] bindings[i])),
{
    lemma_set_count(bindings);
    if forall|i: int| 0 <= i < bindings.len() ==> binding_supported(#[trigger] bindings[i]) {
        assert forall|s: int| 0 <= s < spec_set_count(bindings) implies (#[trigger] spec_set_layout(
            bindings,
            s as u32,
        )) is Ok by {
            lemma_set_layout_ok(bindings, s as u32);
        }
    }
    if forall|s: int|
        0 <= s < spec_set_count(bindings) ==> (#[trigger] spec_set_layout(bindings, s as u32)) is Ok {
        assert forall|i: int| 0 <= i < bindings.len() implies binding_supported(
            #[trigger] bindings[i],
        ) by {
            let s = bindings[i].set;
            assert(spec_set_layout(bindings, (s as int) as u32) is Ok);
            lemma_set_layout_ok(bindings, s);
        }
    }
}

/// Whether binding `a` is listed before binding `b`: in a lower set, or in the
/// same set at a lower binding index.
pub open spec fn comes_before(a: BindingModel, b: BindingModel) -> bool {
    a.set < b.set || (a.set == b.set && a.binding < b.binding)
}

/// Whether the bindings are listed by set index and, within a set, by binding
/// index, with no set and binding index listed twice.
pub open spec fn bindings_ordered(bindings: Seq<BindingModel>) -> bool {
    forall|i: int, j: int|
        0 <= i < j < bindings.len() ==> comes_before(#[trigger] bindings[i], #[trigger] bindings[j])
}

/// In the layout of a set of an ordered shader, every binding index comes
/// from a binding bound in that set, and the binding indices increase: no
/// binding index occurs twice in a layout.
pub proof fn lemma_layout_indices_increase(bindings: Seq<BindingModel>, set: u32)
    requires
        bindings_ordered(bindings),
        spec_set_layout(bindings, set) is Ok,
    ensures
        forall|k: int|
            0 <= k < spec_set_layout(bindings, set)->Ok_0.len() ==> exists|i: int|
                0 <= i < bindings.len() && (#[trigger] bindings[i]).set == set && bindings[i].binding
                    == (#[trigger] spec_set_layout(bindings, set)->Ok_0[k]).binding,
        forall|k: int, l: int|
            0 <= k < l < spec_set_layout(bindings, set)->Ok_0.len() ==> (#[trigger] spec_set_layout(
                bindings,
                set,
            )->Ok_0[k]).binding < (#[trigger] spec_set_layout(bindings, set)->Ok_0[l]).binding,
    decreases bindings.len(),
{
    if bindings.len() > 0 {
        let front = bindings.drop_last();
        let last = bindings.len() - 1;
        assert forall|i: int, j: int| 0 <= i < j < front.len() implies comes_before(
            #[trigger] front[i],
            #[trigger] front[j],
        ) by {
            assert(comes_before(bindings[i], bindings[j]));
        }
        lemma_layout_indices_increase(front, set);
        let before = spec_set_layout(front, set)->Ok_0;
        let layout = spec_set_layout(bindings, set)->Ok_0;
        assert forall|k: int| 0 <= k < layout.len() implies exists|i: int|
            0 <= i < bindings.len() && (#[trigger] bindings[i]).set == set && bindings[i].binding
                == (#[trigger] layout[k]).binding by {
            if k < before.len() {
                assert(layout[k] == before[k]);
                let i = choose|i: int|
                    0 <= i < front.len() && (#[trigger] front[i]).set == set && front[i].binding
                        == before[k].binding;
                assert(bindings[i] == front[i]);
            } else {
                assert(bindings[last].set == set);
            }
        }
        assert forall|k: int, l: int| 0 <= k < l < layout.len() implies (#[trigger] layout[k]).binding
            < (#[trigger] layout[l]).binding by {
            assert(layout[k] == before[k]);
            if l < before.len() {
                assert(layout[l] == before[l]);
            } else {
                let i = choose|i: int|
                    0 <= i < front.len() && (#[trigger] front[i]).set == set && front[i].binding
                        == before[k].binding;
                assert(bindings[i] == front[i]);
                assert(comes_before(bindings[i], bindings[last]));
            }
        }
    }
}

/// The binding-index-to-type entries of a layout.
pub fn binding_types(layout: &Vec<LayoutBinding>) -> (entries: BindingTypes)
    ensures
        entries@ == spec_binding_types(layout@),
{
    let mut entries: Vec<(u32, DescriptorType)> = Vec::new();
    let mut i: usize = 0;
    while i < layout.len()
        invariant
            i <= layout@.len(),
            entries@ == spec_binding_types(layout@.take(i as int)),
        decreases layout@.len() - i,
    {
        proof {
            assert(spec_binding_types(layout@.take(i + 1)) =~= spec_binding_types(
                layout@.take(i as int),
            ).push((layout@[i as int].binding, layout@[i as int].descriptor_type)));
        }
        entries.push((layout[i].binding, layout[i].descriptor_type));
        i += 1;
    }
    proof {
        assert(layout@.take(layout@.len() as int) =~= layout@);
    }
    entries
}

} // verus!
