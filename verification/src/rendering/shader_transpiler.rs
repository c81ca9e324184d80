use naga::{AddressSpace, TypeInner};
use vstd::prelude::*;

verus! {

#[verifier::external_type_specification]
#[verifier::external_body]
pub struct ExNagaModule(naga::Module);

#[verifier::external_type_specification]
#[verifier::external_body]
pub struct ExNagaModuleInfo(naga::valid::ModuleInfo);

/// How a shader resource is bound.
#[derive(Debug, Clone, Copy, PartialEq, Eq, Structural)]
pub enum BindingType {
    UniformBuffer { size: u32 },
    Texture,
    Sampler,
    Other,
}

/// One resource binding a shader expects.
#[derive(Debug, Clone, PartialEq)]
pub struct ShaderBinding {
    pub name: Option<String>,
    pub group: u32,
    pub binding: u32,
    pub binding_type: BindingType,
}

/// The resource bindings a shader expects, in declaration order.
#[derive(Debug, PartialEq)]
pub struct ShaderReflection {
    pub bindings: Vec<ShaderBinding>,
}

impl Default for ShaderReflection {
    fn default() -> (r: Self)
        ensures
            r.bindings@.len() == 0,
    {
        ShaderReflection { bindings: Vec::new() }
    }
}

/// The address space of a global variable, as far as reflection tells them apart.
#[derive(Debug, Clone, Copy, PartialEq, Eq, Structural)]
pub enum GlobalSpace {
    Uniform,
    Handle,
    Other,
}

/// The kind of a global variable's type, as far as reflection tells them apart.
#[derive(Debug, Clone, Copy, PartialEq, Eq, Structural)]
pub enum GlobalTypeKind {
    Image,
    Sampler,
    Other,
}

/// A global variable of a shader module: its name, its `(group, binding)`
/// point if it has one, its address space, the kind of its type and the byte
/// size of its type (`None` when the size does not fit the layout limits).
#[derive(Debug, Clone, PartialEq)]
pub struct ShaderGlobal {
    pub name: Option<String>,
    pub binding: Option<(u32, u32)>,
    pub space: GlobalSpace,
    pub type_kind: GlobalTypeKind,
    pub type_size: Option<u32>,
}

/// The global variables of a shader module, in declaration order.
#[derive(Debug, Clone, PartialEq)]
pub struct ShaderModule {
    pub globals: Vec<ShaderGlobal>,
}

/// Why a SPIR-V module could not be turned into WGSL; each carries the
/// message of the naga error that caused it.
#[derive(Debug, Clone, PartialEq)]
pub enum ShaderError {
    /// The SPIR-V front end refused the bytes.
    Parse { cause: String },
    /// The module failed validation.
    Validation { cause: String },
    /// The WGSL back end failed.
    WgslWrite { cause: String },
}

impl ShaderError {
    /// The human-readable message of the error (its cause is kept apart).
    pub fn message(&self) -> (m: &'static str)
        ensures
            self is Parse ==> m@ == "Failed to parse SPIR-V module"@,
            self is Validation ==> m@ == "Failed to validate Naga module built from SPIR-V"@,
            self is WgslWrite ==> m@ == "Failed to write WGSL output"@,
    {
        match self {
            ShaderError::Parse { .. } => "Failed to parse SPIR-V module",
            ShaderError::Validation { .. } => "Failed to validate Naga module built from SPIR-V",
            ShaderError::WgslWrite { .. } => "Failed to write WGSL output",
        }
    }
}

/// What a naga module holds, as far as reflection reads it: its global
/// variables in arena order, each described by `ShaderGlobal`.
pub uninterp spec fn module_globals(module: naga::Module) -> Seq<ShaderGlobal>;

/// What naga's validator, with all validation flags and all capabilities,
/// answers for the module: acceptance, or the message of its error.
pub uninterp spec fn naga_validation(module: naga::Module) -> Result<(), Seq<char>>;

/// Calls `naga::valid::Validator::validate` with all flags and capabilities,
/// and turns a refusal into the error's message. Claims: the outcome is
/// `naga_validation(*module)` (validation reads the module alone); a module
/// that passes lays out every type within the size limits, so each global has
/// a type size (the layouter refuses any type without a size). Nothing is
/// claimed of the module info.
#[verifier::external_body]
fn validate_module(module: &naga::Module) -> (r: Result<naga::valid::ModuleInfo, String>)
    ensures
        r is Ok <==> naga_validation(*module) is Ok,
        r is Err ==> naga_validation(*module) == Err::<(), Seq<char>>(r->Err_0@),
        r is Ok ==> forall|i: int|
            0 <= i < module_globals(*module).len() ==> (#[trigger] module_globals(*module)[i]).type_size is Some,
{
    let mut validator = naga::valid::Validator::new(
        naga::valid::ValidationFlags::all(),
        naga::valid::Capabilities::all(),
    );
    match validator.validate(module) {
        Ok(info) => Ok(info),
        Err(e) => Err(e.to_string()),
    }
}

/// Reads the global variables of a naga module into plain values (name,
/// binding point, address space, type kind, `TypeInner::try_size`).
/// Claims: the result is `module_globals(*module)`. Only for validated
/// modules: validation first checks that every type handle is in range, and
/// indexing the type arena with a foreign handle panics.
#[verifier::external_body]
fn read_module_globals(module: &naga::Module) -> (r: Vec<ShaderGlobal>)
    requires
        naga_validation(*module) is Ok,
    ensures
        r@ == module_globals(*module),
{
    module.global_variables.iter().map(|(_, g)| ShaderGlobal {
        name: g.name.clone(),
        binding: g.binding.as_ref().map(|b| (b.group, b.binding)),
        space: match g.space {
            AddressSpace::Uniform => GlobalSpace::Uniform,
            AddressSpace::Handle => GlobalSpace::Handle,
            _ => GlobalSpace::Other,
        },
        type_kind: match module.types[g.ty].inner {
            TypeInner::Image { .. } => GlobalTypeKind::Image,
            TypeInner::Sampler { .. } => GlobalTypeKind::Sampler,
            _ => GlobalTypeKind::Other,
        },
        type_size: module.types[g.ty].inner.try_size(module.to_ctx()),
    }).collect()
}

/// The binding type that reflection reports for a global.
pub open spec fn binding_type_of(g: ShaderGlobal) -> BindingType {
    match g.space {
        GlobalSpace::Uniform => BindingType::UniformBuffer { size: g.type_size->0 },
        GlobalSpace::Handle => match g.type_kind {
            GlobalTypeKind::Image => BindingType::Texture,
            GlobalTypeKind::Sampler => BindingType::Sampler,
            GlobalTypeKind::Other => BindingType::Other,
        },
        GlobalSpace::Other => BindingType::Other,
    }
}

/// The bindings reported for `globals`: one per global that has a binding
/// point, in order, with its name, point and binding type.
pub open spec fn reflected_bindings(globals: Seq<ShaderGlobal>) -> Seq<ShaderBinding>
    decreases globals.len(),
{
    if globals.len() == 0 {
        Seq::empty()
    } else {
        let prev = reflected_bindings(globals.drop_last());
        let g = globals.last();
        match g.binding {
            Some(point) => prev.push(
                ShaderBinding { name: g.name, group: point.0, binding: point.1, binding_type: binding_type_of(g) },
            ),
            None => prev,
        }
    }
}

/// The globals that have a binding point, in order.
pub open spec fn bound_globals(globals: Seq<ShaderGlobal>) -> Seq<ShaderGlobal> {
    globals.filter(|g: ShaderGlobal| g.binding is Some)
}

/// Law: reflection reports one binding per global that has a binding point,
/// in declaration order, and each carries that global's name and point.
/// Uniform globals are uniform buffers of their type's size; handle globals
/// are textures for images and samplers for samplers; everything else is
/// `Other`.
pub proof fn law_reflection_follows_bound_globals(globals: Seq<ShaderGlobal>)
    ensures
        reflected_bindings(globals).len() == bound_globals(globals).len(),
        forall|k: int|
            0 <= k < reflected_bindings(globals).len() ==> {
                let b = #[trigger] reflected_bindings(globals)[k];
                let g = bound_globals(globals)[k];
                &&& g.binding is Some
                &&& b.name == g.name
                &&& b.group == (g.binding->0).0
                &&& b.binding == (g.binding->0).1
                &&& (g.space == GlobalSpace::Uniform ==> b.binding_type == (BindingType::UniformBuffer {
                    size: g.type_size->0,
                }))
                &&& (g.space == GlobalSpace::Handle && g.type_kind == GlobalTypeKind::Image ==> b.binding_type
                    == BindingType::Texture)
                &&& (g.space == GlobalSpace::Handle && g.type_kind == GlobalTypeKind::Sampler ==> b.binding_type
                    == BindingType::Sampler)
                &&& (g.space == GlobalSpace::Handle && g.type_kind == GlobalTypeKind::Other ==> b.binding_type
                    == BindingType::Other)
                &&& (g.space == GlobalSpace::Other ==> b.binding_type == BindingType::Other)
            },
    decreases globals.len(),
{
    reveal(Seq::filter);
    if globals.len() > 0 {
        law_reflection_follows_bound_globals(globals.drop_last());
        let prev_r = reflected_bindings(globals.drop_last());
        let prev_b = bound_globals(globals.drop_last());
        assert(bound_globals(globals) == if globals.last().binding is Some {
            prev_b.push(globals.last())
        } else {
            prev_b
        });
        let all_r = reflected_bindings(globals);
        let all_b = bound_globals(globals);
        assert forall|k: int| 0 <= k < all_r.len() implies {
            let b = #[trigger] all_r[k];
            let g = all_b[k];
            &&& g.binding is Some
            &&& b.name == g.name
            &&& b.group == (g.binding->0).0
            &&& b.binding == (g.binding->0).1
            &&& (g.space == GlobalSpace::Uniform ==> b.binding_type == (BindingType::UniformBuffer {
                size: g.type_size->0,
            }))
            &&& (g.space == GlobalSpace::Handle && g.type_kind == GlobalTypeKind::Image ==> b.binding_type
                == BindingType::Texture)
            &&& (g.space == GlobalSpace::Handle && g.type_kind == GlobalTypeKind::Sampler ==> b.binding_type
                == BindingType::Sampler)
            &&& (g.space == GlobalSpace::Handle && g.type_kind == GlobalTypeKind::Other ==> b.binding_type
                == BindingType::Other)
            &&& (g.space == GlobalSpace::Other ==> b.binding_type == BindingType::Other)
        } by {
            if k < prev_r.len() {
                assert(all_r[k] == prev_r[k]);
                assert(all_b[k] == prev_b[k]);
            }
        }
    }
}

/// Every bound uniform global has a type size.
pub open spec fn uniform_sizes_known(globals: Seq<ShaderGlobal>) -> bool {
    forall|i: int|
        0 <= i < globals.len() && (#[trigger] globals[i]).binding is Some && globals[i].space == GlobalSpace::Uniform
            ==> globals[i].type_size is Some
}

fn binding_type_for(g: &ShaderGlobal) -> (t: BindingType)
    requires
        g.space == GlobalSpace::Uniform ==> g.type_size is Some,
    ensures
        t == binding_type_of(*g),
{
    match g.space {
        GlobalSpace::Uniform => match g.type_size {
            Some(size) => BindingType::UniformBuffer { size },
            None => BindingType::Other,
        },
        GlobalSpace::Handle => match g.type_kind {
            GlobalTypeKind::Image => BindingType::Texture,
            GlobalTypeKind::Sampler => BindingType::Sampler,
            GlobalTypeKind::Other => BindingType::Other,
        },
        GlobalSpace::Other => BindingType::Other,
    }
}

/// Lists the resource bindings that a shader module expects: one entry per
/// global variable with a binding point, in declaration order. Uniform
/// buffers report the byte size of their type, images are textures,
/// samplers are samplers, anything else is `Other`.
pub fn reflect_shader_bindings(module: &ShaderModule) -> (r: ShaderReflection)
    requires
        uniform_sizes_known(module.globals@),
    ensures
        r.bindings@ == reflected_bindings(module.globals@),
{
    let mut reflection = ShaderReflection::default();
    let n = module.globals.len();
    let mut i: usize = 0;
    while i < n
        invariant
            n == module.globals.len(),
            i <= n,
            uniform_sizes_known(module.globals@),
            reflection.bindings@ == reflected_bindings(module.globals@.take(i as int)),
        decreases n - i,
    {
        let g = &module.globals[i];
        assert(module.globals@.take(i as int + 1).drop_last() =~= module.globals@.take(i as int));
        assert(module.globals@.take(i as int + 1).last() == module.globals@[i as int]);
        match g.binding {
            Some(point) => {
                let name = match &g.name {
                    Some(s) => Some(s.clone()),
                    None => None,
                };
                let binding_type = binding_type_for(g);
                reflection.bindings.push(ShaderBinding { name, group: point.0, binding: point.1, binding_type });
            },
            None => {},
        }
        i += 1;
    }
    assert(module.globals@.take(n as int) =~= module.globals@);
    reflection
}

/// The middle stage of turning SPIR-V into WGSL, between naga's SPIR-V front
/// end and its WGSL back end: validates the parsed module (all flags, all
/// capabilities) and lists the resource bindings it expects. A module that
/// fails validation gives `ShaderError::Validation` with naga's message as its
/// cause; one that passes gives the validation info the WGSL writer needs and
/// the bindings of its globals.
pub fn validate_and_reflect(module: &naga::Module) -> (r: Result<
    (naga::valid::ModuleInfo, ShaderReflection),
    ShaderError,
>)
    ensures
        r is Ok <==> naga_validation(*module) is Ok,
        r matches Err(e) ==> e matches ShaderError::Validation { cause } && naga_validation(*module) == Err::<
            (),
            Seq<char>,
        >(cause@),
        r matches Ok((_, reflection)) ==> reflection.bindings@ == reflected_bindings(module_globals(*module)),
{
    let info = match validate_module(module) {
        Ok(info) => info,
        Err(cause) => return Err(ShaderError::Validation { cause }),
    };
    let globals = read_module_globals(module);
    let reflection = reflect_shader_bindings(&ShaderModule { globals });
    Ok((info, reflection))
}

} // verus!
