//! Per-file placement.
//!
//! For every file of an addon, the resolver computes its category (the
//! path segment right after the addon name), decides whether the file is
//! kept, and where every copy of it goes. The decision depends only on the
//! pack's pruning state and the file's path, so one exact specification
//! pins it down.

use vstd::prelude::*;
use vstd::string::*;

use crate::lowercase_path::lower_of;
use crate::pack::AddonPack;
use crate::pack::Config;
use crate::paths::components;
use crate::paths::ext_of;
use crate::paths::file_model_stem;
use crate::paths::file_name;
use crate::paths::join_from;
use crate::paths::join_slash;
use crate::paths::last_component;
use crate::paths::model_stem;
use crate::paths::name_ext;
use crate::paths::split_components;

verus! {

/// Where one file goes, at the specification level.
pub enum SpecPlacement {
    /// The file is pruned: no byte of it is copied.
    Discard,
    /// The file is copied once.
    Copy { dest: Seq<char> },
    /// A script file is copied twice: to the per-addon staging tree and to
    /// the per-pack merged tree.
    CopyScript { staging: Seq<char>, merged: Seq<char> },
}

/// Where one file goes.
pub enum Placement {
    Discard,
    Copy { dest: String },
    CopyScript { staging: String, merged: String },
}

impl View for Placement {
    type V = SpecPlacement;

    open spec fn view(&self) -> SpecPlacement {
        match self {
            Placement::Discard => SpecPlacement::Discard,
            Placement::Copy { dest } => SpecPlacement::Copy { dest: dest@ },
            Placement::CopyScript { staging, merged } => SpecPlacement::CopyScript {
                staging: staging@,
                merged: merged@,
            },
        }
    }
}

/// The whole decision for one file: its placement, and whether it must be
/// decoded as a binary model before any later file is judged.
pub struct Resolution {
    pub placement: Placement,
    pub decode_model: bool,
}

/// The decision at the specification level.
pub struct SpecResolution {
    pub placement: SpecPlacement,
    pub decode_model: bool,
}

impl View for Resolution {
    type V = SpecResolution;

    open spec fn view(&self) -> SpecResolution {
        SpecResolution { placement: self.placement@, decode_model: self.decode_model }
    }
}

/// The category of a file: the path segment right after the addon name,
/// or the empty string where the path is too short to have one.
pub open spec fn spec_category(rel: Seq<char>) -> Seq<char> {
    let cs = components(rel);
    if cs.len() > 2 {
        cs[2]
    } else {
        Seq::empty()
    }
}

/// The file's path with the pack and addon components stripped, joined
/// with the canonical separator.
pub open spec fn spec_normalized(rel: Seq<char>) -> Seq<char> {
    let cs = components(rel);
    if cs.len() <= 2 {
        Seq::empty()
    } else {
        join_slash(cs.skip(2))
    }
}

/// The single destination of an ordinary kept file.
pub open spec fn spec_pack_dest(output: Seq<char>, pack_name: Seq<char>, normalized: Seq<
    char,
>) -> Seq<char> {
    output + "/"@ + pack_name + "/"@ + normalized
}

/// The per-addon staging destination of a script file.
pub open spec fn spec_lua_staging(output: Seq<char>, addon: Seq<char>, normalized: Seq<
    char,
>) -> Seq<char> {
    output + "/_lua/"@ + addon + "/"@ + normalized
}

/// The per-pack merged destination of a script file.
pub open spec fn spec_lua_merged(output: Seq<char>, pack_name: Seq<char>, normalized: Seq<
    char,
>) -> Seq<char> {
    output + "/_lua_merged/"@ + pack_name + "/"@ + normalized
}

/// The whole decision table for one file of one addon.
///
/// Models are kept unless the whitelist is active and does not name the
/// file's stem; a kept model with the model-binary extension is decoded
/// when the whitelist is active. Materials are kept unless the whitelist
/// is active and the case-folded normalized path was not derived from any
/// model decoded so far. Scripts always go to both staging trees. Every
/// other file is kept as it is.
pub open spec fn spec_resolve(
    pack: AddonPack,
    output: Seq<char>,
    addon: Seq<char>,
    rel: Seq<char>,
) -> SpecResolution {
    let category = spec_category(rel);
    let normalized = spec_normalized(rel);
    if category == "models"@ {
        if pack.whitelist && !pack.used_models.deep_view().contains(model_stem(rel)) {
            SpecResolution { placement: SpecPlacement::Discard, decode_model: false }
        } else {
            SpecResolution {
                placement: SpecPlacement::Copy {
                    dest: spec_pack_dest(output, pack.name@, normalized),
                },
                decode_model: pack.whitelist && ext_of(last_component(rel)) == "mdl"@,
            }
        }
    } else if category == "materials"@ {
        if pack.whitelist && !pack.used_materials.deep_view().contains(lower_of(normalized)) {
            SpecResolution { placement: SpecPlacement::Discard, decode_model: false }
        } else {
            SpecResolution {
                placement: SpecPlacement::Copy {
                    dest: spec_pack_dest(output, pack.name@, normalized),
                },
                decode_model: false,
            }
        }
    } else if category == "lua"@ {
        SpecResolution {
            placement: SpecPlacement::CopyScript {
                staging: spec_lua_staging(output, addon, normalized),
                merged: spec_lua_merged(output, pack.name@, normalized),
            },
            decode_model: false,
        }
    } else {
        SpecResolution {
            placement: SpecPlacement::Copy {
                dest: spec_pack_dest(output, pack.name@, normalized),
            },
            decode_model: false,
        }
    }
}

/// The placement decision depends only on the pack's abstract pruning
/// state — its whitelist flag, its name, its model stems and its
/// used-material set — and on the paths handed in. Two packs that agree
/// on that state decide every file alike, which is why runs over
/// identical inputs place every file identically.
pub proof fn lemma_resolution_deterministic(
    pack1: AddonPack,
    pack2: AddonPack,
    output: Seq<char>,
    addon: Seq<char>,
    rel: Seq<char>,
)
    requires
        pack1.whitelist == pack2.whitelist,
        pack1.name@ == pack2.name@,
        pack1.used_models.deep_view() == pack2.used_models.deep_view(),
        pack1.used_materials.deep_view() == pack2.used_materials.deep_view(),
    ensures
        spec_resolve(pack1, output, addon, rel) == spec_resolve(pack2, output, addon, rel),
{
}

/// With the whitelist inactive every file is kept: a script at both of
/// its staging destinations, every other file at its single pack
/// destination, and nothing is decoded.
pub proof fn lemma_whitelist_inactive_keeps_all(
    pack: AddonPack,
    output: Seq<char>,
    addon: Seq<char>,
    rel: Seq<char>,
)
    requires
        !pack.whitelist,
    ensures
        spec_category(rel) == "lua"@ ==> spec_resolve(pack, output, addon, rel).placement
            == (SpecPlacement::CopyScript {
            staging: spec_lua_staging(output, addon, spec_normalized(rel)),
            merged: spec_lua_merged(output, pack.name@, spec_normalized(rel)),
        }),
        spec_category(rel) != "lua"@ ==> spec_resolve(pack, output, addon, rel).placement
            == (SpecPlacement::Copy {
            dest: spec_pack_dest(output, pack.name@, spec_normalized(rel)),
        }),
        !spec_resolve(pack, output, addon, rel).decode_model,
{
    proof_categories_distinct();
}

/// With the whitelist active, a material file is kept exactly when its
/// case-folded normalized path was derived from a model decoded earlier
/// in the pack's walk.
pub proof fn lemma_material_kept_iff(
    pack: AddonPack,
    output: Seq<char>,
    addon: Seq<char>,
    rel: Seq<char>,
)
    requires
        pack.whitelist,
        spec_category(rel) == "materials"@,
    ensures
        pack.used_materials.deep_view().contains(lower_of(spec_normalized(rel)))
            ==> spec_resolve(pack, output, addon, rel).placement == (SpecPlacement::Copy {
            dest: spec_pack_dest(output, pack.name@, spec_normalized(rel)),
        }),
        !pack.used_materials.deep_view().contains(lower_of(spec_normalized(rel)))
            ==> spec_resolve(pack, output, addon, rel).placement == SpecPlacement::Discard,
{
    proof_categories_distinct();
}

/// With the whitelist active, a model file whose stem the whitelist does
/// not name is dropped outright: no copy, and no decode that could grow
/// the used-material set.
pub proof fn lemma_unlisted_model_dropped(
    pack: AddonPack,
    output: Seq<char>,
    addon: Seq<char>,
    rel: Seq<char>,
)
    requires
        pack.whitelist,
        spec_category(rel) == "models"@,
        !pack.used_models.deep_view().contains(model_stem(rel)),
    ensures
        spec_resolve(pack, output, addon, rel).placement == SpecPlacement::Discard,
        !spec_resolve(pack, output, addon, rel).decode_model,
{
}

/// With the whitelist active, a model file whose stem the whitelist names
/// is kept, and decoded when it carries the model-binary extension.
pub proof fn lemma_listed_model_kept(
    pack: AddonPack,
    output: Seq<char>,
    addon: Seq<char>,
    rel: Seq<char>,
)
    requires
        pack.whitelist,
        spec_category(rel) == "models"@,
        pack.used_models.deep_view().contains(model_stem(rel)),
    ensures
        spec_resolve(pack, output, addon, rel).placement == (SpecPlacement::Copy {
            dest: spec_pack_dest(output, pack.name@, spec_normalized(rel)),
        }),
        spec_resolve(pack, output, addon, rel).decode_model == (ext_of(last_component(rel))
            == "mdl"@),
{
}

/// The category literals are pairwise distinct.
proof fn proof_categories_distinct()
    ensures
        "models"@ != "materials"@,
        "models"@ != "lua"@,
        "materials"@ != "lua"@,
{
    reveal_strlit("models");
    reveal_strlit("materials");
    reveal_strlit("lua");
    assert("models"@.len() == 6);
    assert("materials"@.len() == 9);
    assert("lua"@.len() == 3);
}

/// Joins `output`, one fixed piece, one name and the normalized path.
fn build_dest(output: &String, prefix: &str, name: &String, normalized: &String) -> (r: String)
    ensures
        r@ == output@ + prefix@ + name@ + "/"@ + normalized@,
{
    let mut dest = output.clone();
    dest.append(prefix);
    dest.append(name.as_str());
    dest.append("/");
    dest.append(normalized.as_str());
    dest
}

/// Decides what happens to the file at `rel` (its path relative to the
/// input root) of the addon `addon_name` of `pack`.
pub fn resolve_file(pack: &AddonPack, config: &Config, addon_name: &String, rel: &String) -> (r:
    Resolution)
    ensures
        r@ == spec_resolve(*pack, config.output_folder@, addon_name@, rel@),
{
    let parts = split_components(rel);
    let category = if parts.len() > 2 {
        parts[2].clone()
    } else {
        String::new()
    };
    proof {
        assert(category@ == spec_category(rel@));
    }
    let normalized = if parts.len() <= 2 {
        String::new()
    } else {
        join_from(&parts, 2)
    };
    proof {
        assert(normalized@ == spec_normalized(rel@));
    }
    let models = String::from_str("models");
    let materials = String::from_str("materials");
    let lua = String::from_str("lua");
    if category == models {
        let stem = file_model_stem(rel);
        if pack.whitelist && !pack.uses_model(&stem) {
            return Resolution { placement: Placement::Discard, decode_model: false };
        }
        let name = file_name(rel);
        let ext = name_ext(&name);
        let mdl = String::from_str("mdl");
        let dest = build_dest(&config.output_folder, "/", &pack.name, &normalized);
        Resolution {
            placement: Placement::Copy { dest },
            decode_model: pack.whitelist && ext == mdl,
        }
    } else if category == materials {
        if pack.whitelist && !pack.uses_material(&normalized) {
            return Resolution { placement: Placement::Discard, decode_model: false };
        }
        let dest = build_dest(&config.output_folder, "/", &pack.name, &normalized);
        Resolution { placement: Placement::Copy { dest }, decode_model: false }
    } else if category == lua {
        let staging = build_dest(&config.output_folder, "/_lua/", addon_name, &normalized);
        let merged = build_dest(&config.output_folder, "/_lua_merged/", &pack.name, &normalized);
        Resolution { placement: Placement::CopyScript { staging, merged }, decode_model: false }
    } else {
        let dest = build_dest(&config.output_folder, "/", &pack.name, &normalized);
        Resolution { placement: Placement::Copy { dest }, decode_model: false }
    }
}

} // verus!
