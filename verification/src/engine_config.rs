//! Explicit configuration of one engine: its state root and the targets it may manage.

use vstd::prelude::*;
use vstd::utf8::*;

use crate::error::EngineConfigError;
use crate::path;
use crate::path::{
    absolute_from_names, join_paths, path_components, path_has_prefix, path_is_absolute,
    resolve_components,
};
use crate::seqs;
use crate::seqs::{bytes_equal, copy_bytes};
use crate::store_types::StoreAccess;
use crate::text::text_equal;

verus! {

/// Name of the state root beneath a state home.
pub open spec fn production_root_leaf() -> Seq<u8> {
    encode_utf8("malm"@)
}

/// A path that can be a state root: it is absolute, names a directory below the file-system
/// root, and is spelled without detours.
pub open spec fn is_usable_root(path: Seq<u8>) -> bool {
    path::is_absolute(path) && path::resolved_names(path::components(path)).len() > 0
        && path::normalized(path) == path
}

/// Tells whether a path can be a state root.
pub fn state_root_is_usable(path: &[u8]) -> (usable: bool)
    ensures
        usable == is_usable_root(path@),
{
    if !path_is_absolute(path) {
        return false;
    }
    let names = resolve_components(&path_components(path));
    assert(seqs::views(names@).len() == names@.len());
    if names.len() == 0 {
        return false;
    }
    let normal = absolute_from_names(&names);
    bytes_equal(normal.as_slice(), path)
}

/// A target that the engine may manage.
#[derive(Debug)]
struct Target {
    authority: String,
    path: Vec<u8>,
}

spec fn target_names(targets: Seq<Target>) -> Seq<Seq<char>> {
    targets.map_values(|target: Target| target.authority@)
}

spec fn target_paths(targets: Seq<Target>) -> Seq<Seq<u8>> {
    targets.map_values(|target: Target| target.path@)
}

/// The map from names to paths that two lists of one length spell out.
pub open spec fn pairing(names: Seq<Seq<char>>, paths: Seq<Seq<u8>>) -> Map<Seq<char>, Seq<u8>>
    decreases names.len(),
{
    if names.len() == 0 {
        Map::empty()
    } else {
        pairing(names.drop_last(), paths.drop_last()).insert(names.last(), paths.last())
    }
}

proof fn lemma_pairing(names: Seq<Seq<char>>, paths: Seq<Seq<u8>>)
    requires
        names.len() == paths.len(),
        names.no_duplicates(),
    ensures
        forall|name: Seq<char>| #[trigger]
            pairing(names, paths).contains_key(name) <==> names.contains(name),
        forall|i: int|
            0 <= i < names.len() ==> #[trigger] pairing(names, paths)[names[i]] == paths[i],
    decreases names.len(),
{
    if names.len() > 0 {
        let before = names.drop_last();
        assert forall|i: int, j: int| 0 <= i < j < before.len() implies before[i] != before[j] by {
            assert(names[i] != names[j]);
        }
        lemma_pairing(before, paths.drop_last());
        let map = pairing(names, paths);
        assert forall|name: Seq<char>| #[trigger]
            map.contains_key(name) <==> names.contains(name) by {
            assert(pairing(before, paths.drop_last()).contains_key(name) <==> before.contains(
                name,
            ));
            if name == names.last() {
                assert(names[names.len() - 1] == name);
            } else if names.contains(name) {
                let i = choose|i: int| 0 <= i < names.len() && names[i] == name;
                assert(before[i] == name);
            } else if before.contains(name) {
                let i = choose|i: int| 0 <= i < before.len() && before[i] == name;
                assert(names[i] == name);
            }
        }
        assert forall|i: int| 0 <= i < names.len() implies #[trigger] map[names[i]]
            == paths[i] by {
            if i < names.len() - 1 {
                assert(names[i] != names[names.len() - 1]);
                assert(before[i] == names[i]);
                assert(pairing(before, paths.drop_last())[before[i]] == paths.drop_last()[i]);
            }
        }
    }
}

/// Explicit, environment-independent configuration for one engine.
#[derive(Debug)]
pub struct EngineConfig {
    state_root: Vec<u8>,
    store_access: StoreAccess,
    targets: Vec<Target>,
}

impl EngineConfig {
    #[verifier::type_invariant]
    spec fn inv(&self) -> bool {
        &&& is_usable_root(self.state_root@)
        &&& target_names(self.targets@).no_duplicates()
        &&& forall|i: int|
            0 <= i < self.targets@.len() ==> !path::path_starts_with(
                #[trigger] target_paths(self.targets@)[i],
                self.state_root@,
            )
    }

    /// The state root.
    pub closed spec fn root(&self) -> Seq<u8> {
        self.state_root@
    }

    /// What may be done with the store.
    pub closed spec fn access(&self) -> StoreAccess {
        self.store_access
    }

    /// The managed targets, by authority.
    pub closed spec fn managed(&self) -> Map<Seq<char>, Seq<u8>> {
        pairing(target_names(self.targets@), target_paths(self.targets@))
    }

    /// Creates a configuration from one exact state-root path, given in words why the contract
    /// on injected roots rejects the path, if it does. That contract accepts usable paths only.
    pub fn new(state_root: Vec<u8>, store_access: StoreAccess, rejection: Option<String>) -> (config:
        Result<EngineConfig, EngineConfigError>)
        requires
            rejection is None ==> is_usable_root(state_root@),
        ensures
            match rejection {
                None => config matches Ok(made) && made.root() == state_root@ && made.access()
                    == store_access && made.managed() == Map::<Seq<char>, Seq<u8>>::empty(),
                Some(words) => config matches Err(error) && error@
                    == EngineConfigError::<Seq<char>, Seq<u8>>::InvalidStateRoot(words@),
            },
    {
        match rejection {
            Some(words) => Err(EngineConfigError::InvalidStateRoot(words)),
            None => {
                let targets: Vec<Target> = Vec::new();
                proof {
                    assert(target_names(targets@) =~= Seq::<Seq<char>>::empty());
                }
                Ok(EngineConfig { state_root, store_access, targets })
            },
        }
    }

    /// Returns the final `malm` root beneath an explicit state home.
    pub fn root_beneath(state_home: &[u8]) -> (root: Vec<u8>)
        ensures
            root@ == path::joined(state_home@, production_root_leaf()),
    {
        join_paths(state_home, "malm".as_bytes())
    }

    /// Creates the final `malm` root beneath an explicit state home, given in words why the
    /// contract on injected roots rejects that root, if it does.
    pub fn from_state_home(
        state_home: &[u8],
        store_access: StoreAccess,
        rejection: Option<String>,
    ) -> (config: Result<EngineConfig, EngineConfigError>)
        requires
            rejection is None ==> is_usable_root(
                path::joined(state_home@, production_root_leaf()),
            ),
        ensures
            match rejection {
                None => config matches Ok(made) && made.root() == path::joined(
                    state_home@,
                    production_root_leaf(),
                ) && made.access() == store_access && made.managed() == Map::<
                    Seq<char>,
                    Seq<u8>,
                >::empty(),
                Some(words) => config matches Err(error) && error@
                    == EngineConfigError::<Seq<char>, Seq<u8>>::InvalidStateRoot(words@),
            },
    {
        EngineConfig::new(EngineConfig::root_beneath(state_home), store_access, rejection)
    }

    /// Returns the exact final state root.
    pub fn state_root(&self) -> (root: &[u8])
        ensures
            root@ == self.root(),
    {
        self.state_root.as_slice()
    }

    /// Returns the trusted parent of the final state root.
    pub fn state_parent(&self) -> (parent: Vec<u8>)
        ensures
            parent@ == path::absolute_path(
                path::resolved_names(path::components(self.root())).drop_last(),
            ),
    {
        proof {
            use_type_invariant(self);
        }
        let mut names = resolve_components(&path_components(self.state_root.as_slice()));
        let ghost before = names@;
        assert(seqs::views(before).len() == before.len());
        let _ = names.pop();
        assert(seqs::views(names@) =~= seqs::views(before).drop_last());
        absolute_from_names(&names)
    }

    /// Returns the last name of the final state root.
    pub fn state_leaf(&self) -> (leaf: Vec<u8>)
        ensures
            leaf@ == path::resolved_names(path::components(self.root())).last(),
    {
        proof {
            use_type_invariant(self);
        }
        let names = resolve_components(&path_components(self.state_root.as_slice()));
        let ghost all = seqs::views(names@);
        assert(all.len() == names@.len());
        let leaf = copy_bytes(names[names.len() - 1].as_slice());
        assert(all.last() == leaf@);
        leaf
    }

    /// Returns the configured store capability.
    pub fn store_access(&self) -> (access: StoreAccess)
        ensures
            access == self.access(),
    {
        self.store_access
    }

    fn find_target(&self, authority: &str) -> (index: Option<usize>)
        ensures
            match index {
                Some(i) => i < self.targets@.len() && target_names(self.targets@)[i as int]
                    == authority@,
                None => !target_names(self.targets@).contains(authority@),
            },
    {
        let mut i: usize = 0;
        while i < self.targets.len()
            invariant
                i <= self.targets.len(),
                forall|k: int|
                    0 <= k < i ==> #[trigger] target_names(self.targets@)[k] != authority@,
            decreases self.targets.len() - i,
        {
            if text_equal(self.targets[i].authority.as_str(), authority) {
                return Some(i);
            }
            i = i + 1;
        }
        None
    }

    spec fn targets_within(&self, other: &EngineConfig) -> bool {
        forall|name: Seq<char>| #[trigger]
            self.managed().contains_key(name) ==> other.managed().contains_key(name)
                && self.managed()[name] == other.managed()[name]
    }

    fn has_targets_within(&self, other: &EngineConfig) -> (within: bool)
        ensures
            within == self.targets_within(other),
    {
        let ghost names = target_names(self.targets@);
        proof {
            use_type_invariant(self);
            lemma_pairing(names, target_paths(self.targets@));
        }
        let mut i: usize = 0;
        while i < self.targets.len()
            invariant
                i <= self.targets.len(),
                names == target_names(self.targets@),
                names.len() == self.targets@.len(),
                forall|name: Seq<char>| #[trigger]
                    self.managed().contains_key(name) <==> names.contains(name),
                forall|k: int|
                    0 <= k < names.len() ==> #[trigger] self.managed()[names[k]]
                        == self.targets@[k].path@,
                forall|k: int|
                    0 <= k < i ==> other.managed().contains_key(#[trigger] names[k])
                        && other.managed()[names[k]] == self.managed()[names[k]],
            decreases self.targets.len() - i,
        {
            proof {
                assert(names[i as int] == self.targets@[i as int].authority@);
                assert(names.contains(names[i as int]));
                assert(self.managed().contains_key(names[i as int]));
                assert(self.managed()[names[i as int]] == self.targets@[i as int].path@);
            }
            match other.target_root(self.targets[i].authority.as_str()) {
                Some(found) => {
                    if !bytes_equal(found, self.targets[i].path.as_slice()) {
                        return false;
                    }
                },
                None => {
                    return false;
                },
            }
            i = i + 1;
        }
        proof {
            assert forall|name: Seq<char>| #[trigger]
                self.managed().contains_key(name) implies other.managed().contains_key(name)
                && self.managed()[name] == other.managed()[name] by {
                let k = choose|k: int| 0 <= k < names.len() && names[k] == name;
                assert(other.managed().contains_key(names[k]));
            }
        }
        true
    }

    /// Adds one explicit managed-target authority without granting arbitrary paths to requests.
    pub fn with_target_authority(self, authority: String, path: Vec<u8>) -> (config: Result<
        EngineConfig,
        EngineConfigError,
    >)
        ensures
            ({
                let target = path::normalized(path@);
                if !path::is_absolute(path@) || path::resolved_names(
                    path::components(path@),
                ).len() == 0 {
                    config matches Err(error) && error@
                        == (EngineConfigError::<Seq<char>, Seq<u8>>::InvalidTargetRoot {
                        authority: authority@,
                        path: path@,
                    })
                } else if path::path_starts_with(target, self.root()) {
                    config matches Err(error) && error@
                        == (EngineConfigError::<Seq<char>, Seq<u8>>::TargetOverlapsState {
                        authority: authority@,
                        path: target,
                    })
                } else if self.managed().contains_key(authority@) {
                    config matches Err(error) && error@ == EngineConfigError::<
                        Seq<char>,
                        Seq<u8>,
                    >::DuplicateTargetAuthority(authority@)
                } else {
                    config matches Ok(made) && made.root() == self.root() && made.access()
                        == self.access() && made.managed() == self.managed().insert(
                        authority@,
                        target,
                    )
                }
            }),
    {
        proof {
            use_type_invariant(&self);
            lemma_pairing(target_names(self.targets@), target_paths(self.targets@));
        }
        if !path_is_absolute(path.as_slice()) {
            return Err(EngineConfigError::InvalidTargetRoot { authority, path });
        }
        let names = resolve_components(&path_components(path.as_slice()));
        assert(seqs::views(names@).len() == names@.len());
        if names.len() == 0 {
            return Err(EngineConfigError::InvalidTargetRoot { authority, path });
        }
        let target = absolute_from_names(&names);
        if path_has_prefix(target.as_slice(), self.state_root.as_slice()) {
            return Err(EngineConfigError::TargetOverlapsState { authority, path: target });
        }
        match self.find_target(authority.as_str()) {
            Some(i) => {
                proof {
                    assert(target_names(self.targets@).contains(authority@));
                }
                Err(EngineConfigError::DuplicateTargetAuthority(authority))
            },
            None => {
                let ghost old_targets = self.targets@;
                let EngineConfig { state_root, store_access, targets } = self;
                let ghost name = authority@;
                let ghost place = target@;
                let mut targets = targets;
                targets.push(Target { authority, path: target });
                proof {
                    assert(target_names(targets@) =~= target_names(old_targets).push(name));
                    assert(target_paths(targets@) =~= target_paths(old_targets).push(place));
                    assert(target_names(targets@).drop_last() =~= target_names(old_targets));
                    assert(target_paths(targets@).drop_last() =~= target_paths(old_targets));
                    assert forall|i: int| 0 <= i < targets@.len() implies !path::path_starts_with(
                        #[trigger] target_paths(targets@)[i],
                        state_root@,
                    ) by {
                        if i < old_targets.len() {
                            assert(target_paths(targets@)[i] == target_paths(old_targets)[i]);
                        }
                    }
                }
                Ok(EngineConfig { state_root, store_access, targets })
            },
        }
    }

    /// Returns the explicit root for a stable target authority. It never lies inside the
    /// state root.
    pub fn target_root(&self, authority: &str) -> (root: Option<&[u8]>)
        ensures
            match root {
                Some(found) => self.managed().contains_key(authority@) && found@
                    == self.managed()[authority@] && !path::path_starts_with(
                    found@,
                    self.root(),
                ),
                None => !self.managed().contains_key(authority@),
            },
    {
        proof {
            use_type_invariant(self);
            lemma_pairing(target_names(self.targets@), target_paths(self.targets@));
        }
        match self.find_target(authority) {
            Some(i) => {
                proof {
                    assert(target_names(self.targets@).contains(authority@));
                    assert(pairing(target_names(self.targets@), target_paths(self.targets@))[target_names(
                        self.targets@,
                    )[i as int]] == target_paths(self.targets@)[i as int]);
                }
                Some(self.targets[i].path.as_slice())
            },
            None => None,
        }
    }
}

impl Clone for EngineConfig {
    fn clone(&self) -> (copy: Self)
        ensures
            copy.root() == self.root(),
            copy.access() == self.access(),
            copy.managed() == self.managed(),
    {
        proof {
            use_type_invariant(self);
        }
        let ghost all = self.targets@;
        let mut targets: Vec<Target> = Vec::new();
        let mut i: usize = 0;
        while i < self.targets.len()
            invariant
                i <= self.targets.len(),
                all == self.targets@,
                targets@.len() == i,
                forall|k: int|
                    0 <= k < i ==> (#[trigger] targets@[k]).authority@ == all[k].authority@
                        && targets@[k].path@ == all[k].path@,
            decreases self.targets.len() - i,
        {
            targets.push(
                Target {
                    authority: self.targets[i].authority.clone(),
                    path: copy_bytes(self.targets[i].path.as_slice()),
                },
            );
            i = i + 1;
        }
        proof {
            assert(target_names(targets@) =~= target_names(all));
            assert(target_paths(targets@) =~= target_paths(all));
        }
        EngineConfig {
            state_root: copy_bytes(self.state_root.as_slice()),
            store_access: self.store_access,
            targets,
        }
    }
}

impl PartialEq for EngineConfig {
    fn eq(&self, other: &Self) -> (same: bool) {
        proof {
            use_type_invariant(self);
            use_type_invariant(other);
            if self.managed() == other.managed() {
                assert(self.targets_within(other) && other.targets_within(self));
            }
        }
        let same = bytes_equal(self.state_root.as_slice(), other.state_root.as_slice())
            && self.store_access == other.store_access && self.has_targets_within(other)
            && other.has_targets_within(self);
        proof {
            if same {
                assert forall|name: Seq<char>| self.managed().contains_key(name) == #[trigger]
                    other.managed().contains_key(name) && (self.managed().contains_key(name)
                    ==> self.managed()[name] == other.managed()[name]) by {
                    assert(self.managed().contains_key(name) ==> other.managed().contains_key(
                        name,
                    ));
                }
                assert(self.managed() =~= other.managed());
            }
        }
        same
    }
}

impl vstd::std_specs::cmp::PartialEqSpecImpl for EngineConfig {
    open spec fn obeys_eq_spec() -> bool {
        true
    }

    open spec fn eq_spec(&self, other: &Self) -> bool {
        self.root() == other.root() && self.access() == other.access() && self.managed()
            == other.managed()
    }
}

impl Eq for EngineConfig {

}

/// A state root is its parent joined with its leaf.
pub proof fn lemma_state_root_is_parent_and_leaf(root: Seq<u8>)
    requires
        is_usable_root(root),
    ensures
        ({
            let names = path::resolved_names(path::components(root));
            path::joined(path::absolute_path(names.drop_last()), names.last()) == root
        }),
{
    let names = path::resolved_names(path::components(root));
    path::lemma_components_clear(root);
    path::lemma_resolved_names_are_names(path::components(root));
    let leaf = names.last();
    assert(path::is_name(names[names.len() - 1]));
    let parent = path::absolute_path(names.drop_last());
    assert(leaf[0] != path::SEPARATOR);
    if names.len() == 1 {
        assert(seqs::join_with(names.drop_last(), path::SEPARATOR) =~= Seq::<u8>::empty());
        assert(parent =~= seq![path::SEPARATOR]);
        assert(path::joined(parent, leaf) =~= path::absolute_path(names));
    } else {
        assert(path::is_name(names.drop_last()[names.len() - 2]));
        lemma_join_ends_with_last(names.drop_last());
        assert(path::absolute_path(names) =~= parent.push(path::SEPARATOR) + leaf);
    }
}

proof fn lemma_join_ends_with_last(names: Seq<Seq<u8>>)
    requires
        names.len() > 0,
        path::is_name(names.last()),
    ensures
        seqs::join_with(names, path::SEPARATOR).len() > 0,
        seqs::join_with(names, path::SEPARATOR).last() != path::SEPARATOR,
        path::absolute_path(names).last() != path::SEPARATOR,
{
    let last = names.last();
    assert(last[last.len() - 1] != path::SEPARATOR);
    let all = seqs::join_with(names, path::SEPARATOR);
    if names.len() == 1 {
        assert(all == last);
    } else {
        assert(all[all.len() - 1] == last[last.len() - 1]);
    }
    assert(path::absolute_path(names)[all.len() as int] == all[all.len() - 1]);
}

} // verus!
