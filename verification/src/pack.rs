//! Addon packs and their pruning state.
//!
//! One `AddonPack` exists per non-ignored top-level folder of the input
//! tree. It owns every piece of mutable pruning state: the explicit model
//! whitelist loaded from the pack's manifest, the used-material set grown
//! by decoding models while the pack's addons are walked, and the running
//! byte total of what was materialized.

use vstd::prelude::*;
use vstd::string::*;

use crate::lowercase_path::fold_case;
use crate::lowercase_path::lower_of;
use crate::model::decode_ok;
use crate::model::decoded_dirs;
use crate::model::decoded_texs;
use crate::model::material_paths;
use crate::model::parse_error_cause;
use crate::model::parse_model;
use crate::model::ModelError;
use crate::paths::last_component;
use crate::paths::stem_of;

verus! {

/// What drives one run: where to read, where to write, which packs to
/// pass over, and whether the model whitelist is enabled at all.
pub struct Config {
    pub input_folder: String,
    pub output_folder: String,
    pub ignored_addon_packs: Vec<String>,
    pub model_whitelist: bool,
}

/// The manifest of a pack exists but cannot be parsed.
#[derive(Debug)]
pub struct WhitelistError;

/// One top-level content collection, with all of its pruning state.
pub struct AddonPack {
    /// The pack's name: its folder name with any extension stripped.
    pub name: String,
    /// The pack's root: the input folder joined with the name.
    pub path: String,
    /// Whether the whitelist is active for this pack.
    pub whitelist: bool,
    /// The whitelisted model stems, loaded once from the manifest.
    pub used_models: Vec<String>,
    /// Every material path derived so far from this pack's decoded models,
    /// case-folded.
    pub used_materials: Vec<String>,
    /// The bytes materialized so far for this pack.
    pub total_size: u64,
}

/// Whether `x` is one of the strings of `v`.
pub(crate) fn contains_string(v: &Vec<String>, x: &String) -> (r: bool)
    ensures
        r == v.deep_view().contains(x@),
{
    let mut i: usize = 0;
    while i < v.len()
        invariant
            i <= v@.len(),
            forall|t: int| 0 <= t < i ==> v.deep_view()[t] != x@,
        decreases v@.len() - i,
    {
        if v[i] == *x {
            proof {
                assert(v.deep_view()[i as int] == x@);
            }
            return true;
        }
        proof {
            assert(v.deep_view()[i as int] == v@[i as int]@);
        }
        i = i + 1;
    }
    proof {
        if v.deep_view().contains(x@) {
            let t = choose|t: int| 0 <= t < v.deep_view().len() && v.deep_view()[t] == x@;
            assert(v.deep_view()[t] != x@);
        }
    }
    false
}

/// What `serde_json::from_str::<Vec<String>>` yields on a manifest text:
/// the parsed strings, or nothing where the text is not such an array.
pub uninterp spec fn json_model_list(s: Seq<char>) -> Option<Seq<Seq<char>>>;

#[verifier::external_type_specification]
#[verifier::external_body]
pub struct ExSerdeJsonError(serde_json::Error);

/// Relies on serde_json::from_str::<Vec<String>>: parses a JSON array of
/// strings; the result depends on the input text alone.
#[verifier::external_body]
fn parse_json_string_list(s: &str) -> (r: Result<Vec<String>, serde_json::Error>)
    ensures
        r is Ok <==> json_model_list(s@) is Some,
        r is Ok ==> r.unwrap().deep_view() == json_model_list(s@).unwrap(),
{
    serde_json::from_str(s)
}

/// The whitelist keys of the manifest entries: each entry's file name with
/// one extension stripped.
pub open spec fn spec_model_stems(entries: Seq<Seq<char>>) -> Seq<Seq<char>> {
    entries.map_values(|e: Seq<char>| stem_of(last_component(e)))
}

impl AddonPack {
    /// Loads the pack's model whitelist from its manifest, where the
    /// whitelist feature is enabled and the manifest exists. A missing
    /// manifest is no error: the whitelist simply stays inactive. A
    /// manifest that does not parse as a JSON array of strings is an
    /// error, and the pack is left untouched.
    pub fn load_whitelist(&mut self, config: &Config, manifest: Option<&String>) -> (r: Result<
        (),
        WhitelistError,
    >)
        ensures
            match manifest {
                Some(m) => {
                    if config.model_whitelist {
                        match r {
                            Ok(_) => {
                                &&& json_model_list(m@) is Some
                                &&& final(self).whitelist
                                &&& final(self).used_models.deep_view() == spec_model_stems(
                                    json_model_list(m@).unwrap(),
                                )
                                &&& final(self).name == old(self).name
                                &&& final(self).path == old(self).path
                                &&& final(self).used_materials == old(self).used_materials
                                &&& final(self).total_size == old(self).total_size
                            },
                            Err(_) => json_model_list(m@) is None && *final(self) == *old(self),
                        }
                    } else {
                        r is Ok && *final(self) == *old(self)
                    }
                },
                None => r is Ok && *final(self) == *old(self),
            },
    {
        if !config.model_whitelist {
            return Ok(());
        }
        let text = match manifest {
            Some(m) => m,
            None => {
                return Ok(());
            },
        };
        let entries = match parse_json_string_list(text.as_str()) {
            Ok(v) => v,
            Err(_) => {
                return Err(WhitelistError);
            },
        };
        let ghost ev = entries.deep_view();
        let mut stems: Vec<String> = Vec::new();
        let mut i: usize = 0;
        while i < entries.len()
            invariant
                ev == entries.deep_view(),
                i <= ev.len(),
                stems@.len() == i,
                forall|t: int|
                    0 <= t < i ==> #[trigger] stems.deep_view()[t] == stem_of(
                        last_component(ev[t]),
                    ),
            decreases ev.len() - i,
        {
            let name = crate::paths::file_name(&entries[i]);
            let stem = crate::paths::name_stem(&name);
            let ghost prev = stems.deep_view();
            let ghost sv = stem@;
            stems.push(stem);
            proof {
                assert(stems.deep_view() =~~= prev.push(sv));
                assert(entries@[i as int]@ == ev[i as int]);
                assert forall|t: int| 0 <= t < i + 1 implies #[trigger] stems.deep_view()[t]
                    == stem_of(last_component(ev[t])) by {
                    if t < i {
                        assert(stems.deep_view()[t] == prev[t]);
                    }
                }
            }
            i = i + 1;
        }
        proof {
            assert(stems.deep_view() =~~= spec_model_stems(ev));
        }
        self.used_models = stems;
        self.whitelist = true;
        Ok(())
    }

    /// Whether the whitelist names this model stem.
    pub fn uses_model(&self, model: &String) -> (r: bool)
        ensures
            r == self.used_models.deep_view().contains(model@),
    {
        contains_string(&self.used_models, model)
    }

    /// Whether a material path, case-folded, was derived from any model
    /// decoded so far in this pack.
    pub fn uses_material(&self, material: &String) -> (r: bool)
        ensures
            r == self.used_materials.deep_view().contains(lower_of(material@)),
    {
        let folded = fold_case(material.as_str());
        contains_string(&self.used_materials, &folded)
    }

    /// Decodes one model file and merges every material path it derives
    /// into the pack's used-material set. On failure the pack is left
    /// untouched and the decode error is passed on.
    pub fn register_model(&mut self, file: &Vec<u8>) -> (r: Result<(), ModelError>)
        ensures
            match r {
                Ok(_) => {
                    &&& decode_ok(file@)
                    &&& final(self).used_materials.deep_view() == old(
                        self,
                    ).used_materials.deep_view() + material_paths(
                        decoded_dirs(file@),
                        decoded_texs(file@),
                    )
                    &&& final(self).name == old(self).name
                    &&& final(self).path == old(self).path
                    &&& final(self).whitelist == old(self).whitelist
                    &&& final(self).used_models == old(self).used_models
                    &&& final(self).total_size == old(self).total_size
                },
                Err(e) => parse_error_cause(file@, e) && *final(self) == *old(self),
            },
    {
        let mut parsed = match parse_model(file) {
            Ok(m) => m,
            Err(e) => {
                return Err(e);
            },
        };
        let ghost prev = self.used_materials.deep_view();
        let ghost added = parsed.used_paths.deep_view();
        self.used_materials.append(&mut parsed.used_paths);
        proof {
            assert(self.used_materials.deep_view() =~~= prev + added);
        }
        Ok(())
    }

    /// Adds the size of one materialized file to the pack's total; a total
    /// beyond 64 bits saturates.
    pub fn add_size(&mut self, size: u64)
        ensures
            final(self).total_size == if old(self).total_size + size <= u64::MAX {
                old(self).total_size + size
            } else {
                u64::MAX as int
            },
            final(self).name == old(self).name,
            final(self).path == old(self).path,
            final(self).whitelist == old(self).whitelist,
            final(self).used_models == old(self).used_models,
            final(self).used_materials == old(self).used_materials,
    {
        if size <= u64::MAX - self.total_size {
            self.total_size = self.total_size + size;
        } else {
            self.total_size = u64::MAX;
        }
    }
}

/// The pack names that one run processes: each folder name with its
/// extension stripped, in order, the ignored ones left out.
pub open spec fn spec_pack_names(entries: Seq<Seq<char>>, ignored: Seq<Seq<char>>) -> Seq<
    Seq<char>,
>
    decreases entries.len(),
{
    if entries.len() == 0 {
        Seq::empty()
    } else {
        let init = spec_pack_names(entries.drop_last(), ignored);
        let name = stem_of(entries.last());
        if ignored.contains(name) {
            init
        } else {
            init.push(name)
        }
    }
}

/// No ignored name survives the selection.
pub proof fn lemma_pack_names_not_ignored(entries: Seq<Seq<char>>, ignored: Seq<Seq<char>>)
    ensures
        forall|i: int|
            0 <= i < spec_pack_names(entries, ignored).len() ==> !ignored.contains(
                #[trigger] spec_pack_names(entries, ignored)[i],
            ),
    decreases entries.len(),
{
    if entries.len() > 0 {
        lemma_pack_names_not_ignored(entries.drop_last(), ignored);
        let init = spec_pack_names(entries.drop_last(), ignored);
        let whole = spec_pack_names(entries, ignored);
        assert forall|i: int| 0 <= i < whole.len() implies !ignored.contains(
            #[trigger] whole[i],
        ) by {
            if i < init.len() {
                assert(whole[i] == init[i]);
            } else {
                assert(whole[i] == stem_of(entries.last()));
            }
        }
    }
}

/// Builds the packs of one run from the input root's folder names:
/// one fresh pack per folder whose stripped name is not ignored, in order.
/// Files under an ignored pack name are never processed, so they never
/// appear anywhere in the output.
pub fn get_addon_packs(folder_names: &Vec<String>, config: &Config) -> (r: Vec<AddonPack>)
    ensures
        ({
            let expected = spec_pack_names(
                folder_names.deep_view(),
                config.ignored_addon_packs.deep_view(),
            );
            &&& r@.len() == expected.len()
            &&& forall|i: int|
                0 <= i < r@.len() ==> {
                    &&& (#[trigger] r@[i]).name@ == expected[i]
                    &&& r@[i].path@ == config.input_folder@ + "/"@ + expected[i]
                    &&& !r@[i].whitelist
                    &&& r@[i].used_models@.len() == 0
                    &&& r@[i].used_materials@.len() == 0
                    &&& r@[i].total_size == 0
                }
            &&& forall|i: int|
                0 <= i < r@.len() ==> !config.ignored_addon_packs.deep_view().contains(
                    (#[trigger] r@[i]).name@,
                )
        }),
{
    let ghost fv = folder_names.deep_view();
    let ghost ign = config.ignored_addon_packs.deep_view();
    let mut out: Vec<AddonPack> = Vec::new();
    let mut i: usize = 0;
    proof {
        assert(fv.take(0) =~~= Seq::<Seq<char>>::empty());
    }
    while i < folder_names.len()
        invariant
            fv == folder_names.deep_view(),
            ign == config.ignored_addon_packs.deep_view(),
            i <= fv.len(),
            out@.len() == spec_pack_names(fv.take(i as int), ign).len(),
            forall|t: int|
                0 <= t < out@.len() ==> {
                    &&& (#[trigger] out@[t]).name@ == spec_pack_names(fv.take(i as int), ign)[t]
                    &&& out@[t].path@ == config.input_folder@ + "/"@ + spec_pack_names(
                        fv.take(i as int),
                        ign,
                    )[t]
                    &&& !out@[t].whitelist
                    &&& out@[t].used_models@.len() == 0
                    &&& out@[t].used_materials@.len() == 0
                    &&& out@[t].total_size == 0
                },
        decreases fv.len() - i,
    {
        let name = crate::paths::name_stem(&folder_names[i]);
        proof {
            assert(folder_names@[i as int]@ == fv[i as int]);
            assert(fv.take(i + 1).drop_last() =~~= fv.take(i as int));
            assert(fv.take(i + 1).last() == fv[i as int]);
        }
        let ghost before = spec_pack_names(fv.take(i as int), ign);
        let ghost after = spec_pack_names(fv.take(i + 1), ign);
        if !contains_string(&config.ignored_addon_packs, &name) {
            let mut path = config.input_folder.clone();
            path.append("/");
            path.append(name.as_str());
            let pack = AddonPack {
                name,
                path,
                whitelist: false,
                used_models: Vec::new(),
                used_materials: Vec::new(),
                total_size: 0,
            };
            out.push(pack);
            proof {
                assert(after == before.push(stem_of(fv[i as int])));
            }
        } else {
            proof {
                assert(after == before);
            }
        }
        i = i + 1;
    }
    proof {
        assert(fv.take(fv.len() as int) =~~= fv);
        lemma_pack_names_not_ignored(fv, ign);
    }
    out
}

} // verus!
