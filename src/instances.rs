use vstd::prelude::*;
use crate::text::str_eq;

verus! {

/// The mod loader of an instance.
#[derive(Clone, Copy, Debug, PartialEq, Eq, Structural)]
pub enum ModLoader {
    Vanilla,
    Fabric,
    Forge,
    NeoForge,
}

impl ModLoader {
    /// The loader's display name.
    pub fn name(&self) -> (r: &'static str)
        ensures
            r@ == match *self {
                ModLoader::Vanilla => "Vanilla"@,
                ModLoader::Fabric => "Fabric"@,
                ModLoader::Forge => "Forge"@,
                ModLoader::NeoForge => "NeoForge"@,
            },
    {
        match self {
            ModLoader::Vanilla => "Vanilla",
            ModLoader::Fabric => "Fabric",
            ModLoader::Forge => "Forge",
            ModLoader::NeoForge => "NeoForge",
        }
    }
}

impl Default for ModLoader {
    fn default() -> (r: Self)
        ensures
            r == ModLoader::Vanilla,
    {
        ModLoader::Vanilla
    }
}

/// A named, isolated game configuration.
#[derive(Clone, Debug)]
pub struct Instance {
    pub id: String,
    pub name: String,
    pub version_id: String,
    pub created_at: String,
    pub last_played: Option<String>,
    pub java_path: Option<String>,
    pub jvm_args: Option<String>,
    pub memory_min: Option<u32>,
    pub memory_max: Option<u32>,
    pub game_directory: Option<String>,
    pub resolution_width: Option<u32>,
    pub resolution_height: Option<u32>,
    pub mod_loader: ModLoader,
    pub mod_loader_version: Option<String>,
    pub console_auto_update: bool,
    pub logo_filename: Option<String>,
    pub playtime_seconds: u64,
    pub total_launches: u64,
    pub color_accent: Option<String>,
    pub preferred_account: Option<String>,
    pub check_mod_updates_on_launch: bool,
}

/// All instances of the store.
#[derive(Clone, Debug)]
pub struct InstancesConfig {
    pub instances: Vec<Instance>,
}

/// `base/name`.
pub open spec fn path_join(base: Seq<char>, name: Seq<char>) -> Seq<char> {
    base + "/"@ + name
}

/// Joins a directory and an entry name with `/`.
pub fn join_path(base: &str, name: &str) -> (r: String)
    ensures
        r@ == path_join(base@, name@),
{
    let mut p = base.to_owned();
    p.append("/");
    p.append(name);
    p
}

impl Instance {
    /// A new vanilla instance with default memory bounds and no statistics.
    pub fn new(id: String, name: String, version_id: String, created_at: String) -> (r: Instance)
        ensures
            r.id == id,
            r.name == name,
            r.version_id == version_id,
            r.created_at == created_at,
            r.last_played is None,
            r.memory_min == Some(512u32),
            r.memory_max == Some(4096u32),
            r.mod_loader == ModLoader::Vanilla,
            r.playtime_seconds == 0,
            r.total_launches == 0,
            r.game_directory is None,
            r.preferred_account is None,
    {
        Instance {
            id,
            name,
            version_id,
            created_at,
            last_played: None,
            java_path: None,
            jvm_args: None,
            memory_min: Some(512),
            memory_max: Some(4096),
            game_directory: None,
            resolution_width: None,
            resolution_height: None,
            mod_loader: ModLoader::Vanilla,
            mod_loader_version: None,
            console_auto_update: true,
            logo_filename: Some("minecraft_logo.png".to_owned()),
            playtime_seconds: 0,
            total_launches: 0,
            color_accent: None,
            preferred_account: None,
            check_mod_updates_on_launch: true,
        }
    }

    /// The instance's directory under the instances directory.
    pub fn get_directory(&self, instances_dir: &str) -> (r: String)
        ensures
            r@ == path_join(instances_dir@, self.id@),
    {
        join_path(instances_dir, self.id.as_str())
    }

    /// The game's working directory: the override if set, else
    /// `<instance>/minecraft`.
    pub fn get_game_directory(&self, instances_dir: &str) -> (r: String)
        ensures
            r@ == match self.game_directory {
                Some(g) => g@,
                None => path_join(path_join(instances_dir@, self.id@), "minecraft"@),
            },
    {
        match &self.game_directory {
            Some(g) => g.clone(),
            None => {
                let d = self.get_directory(instances_dir);
                join_path(d.as_str(), "minecraft")
            },
        }
    }

    /// Whether both resolution dimensions are set.
    pub fn has_custom_resolution(&self) -> (r: bool)
        ensures
            r == (self.resolution_width is Some && self.resolution_height is Some),
    {
        self.resolution_width.is_some() && self.resolution_height.is_some()
    }
}

/// The position of the first instance with identifier `id`.
pub open spec fn index_of(instances: Seq<Instance>, id: Seq<char>, i: int) -> bool {
    0 <= i < instances.len() && instances[i].id@ == id && forall|j: int|
        0 <= j < i ==> instances[j].id@ != id
}

/// Finds the first instance with identifier `id`.
pub fn find_instance(instances: &Vec<Instance>, id: &str) -> (r: Option<usize>)
    ensures
        match r {
            Some(i) => index_of(instances@, id@, i as int),
            None => forall|j: int| 0 <= j < instances@.len() ==> instances@[j].id@ != id@,
        },
{
    let mut i: usize = 0;
    while i < instances.len()
        invariant
            i <= instances@.len(),
            forall|j: int| 0 <= j < i ==> instances@[j].id@ != id@,
        decreases instances.len() - i,
    {
        if str_eq(instances[i].id.as_str(), id) {
            return Some(i);
        }
        i = i + 1;
    }
    None
}

/// Why an instance operation failed.
#[derive(Clone, Copy, Debug, PartialEq, Eq, Structural)]
pub enum InstanceError {
    /// No instance has the identifier.
    NotFound,
}

/// Replaces the stored instance that has the same identifier.
pub fn update_instance(instances: &mut Vec<Instance>, instance: Instance) -> (r: Result<(), InstanceError>)
    ensures
        match r {
            Ok(()) => exists|i: int| index_of(old(instances)@, instance.id@, i) && final(instances)@ == old(instances)@.update(i, instance),
            Err(e) => e == InstanceError::NotFound && final(instances)@ == old(instances)@
                && forall|j: int| 0 <= j < old(instances)@.len() ==> old(instances)@[j].id@ != instance.id@,
        },
{
    match find_instance(instances, instance.id.as_str()) {
        Some(i) => {
            instances.set(i, instance);
            Ok(())
        },
        None => Err(InstanceError::NotFound),
    }
}

/// Finds the instance with identifier `id`.
pub fn get_instance<'a>(instances: &'a Vec<Instance>, id: &str) -> (r: Result<&'a Instance, InstanceError>)
    ensures
        match r {
            Ok(inst) => exists|i: int| index_of(instances@, id@, i) && *inst == instances@[i],
            Err(e) => e == InstanceError::NotFound && forall|j: int|
                0 <= j < instances@.len() ==> instances@[j].id@ != id@,
        },
{
    match find_instance(instances, id) {
        Some(i) => Ok(&instances[i]),
        None => Err(InstanceError::NotFound),
    }
}

/// Whether an instance prefers the account `username`.
pub open spec fn prefers(inst: Instance, username: Seq<char>) -> bool {
    inst.preferred_account is Some && inst.preferred_account->0@ == username
}

/// The number of instances that prefer `username`.
pub open spec fn count_preferring(instances: Seq<Instance>, username: Seq<char>) -> nat
    decreases instances.len(),
{
    if instances.len() == 0 {
        0
    } else {
        count_preferring(instances.drop_last(), username) + if prefers(instances.last(), username) { 1nat } else { 0nat }
    }
}

proof fn lemma_count_bound(instances: Seq<Instance>, username: Seq<char>)
    ensures
        count_preferring(instances, username) <= instances.len(),
    decreases instances.len(),
{
    if instances.len() > 0 {
        lemma_count_bound(instances.drop_last(), username);
    }
}

/// Clears the preferred account of every instance bound to `username`, and
/// returns how many were cleared.
pub fn clear_preferred_account(instances: &mut Vec<Instance>, username: &str) -> (r: u32)
    requires
        old(instances)@.len() <= u32::MAX,
    ensures
        r == count_preferring(old(instances)@, username@),
        final(instances)@.len() == old(instances)@.len(),
        forall|i: int|
            0 <= i < final(instances)@.len() ==> {
                let o = #[trigger] old(instances)@[i];
                let n = final(instances)@[i];
                n == (Instance { preferred_account: if prefers(o, username@) { None } else { o.preferred_account }, ..o })
            },
{
    let ghost orig = instances@;
    let mut cleared: u32 = 0;
    let mut i: usize = 0;
    assert(orig.subrange(0, 0) =~= Seq::<Instance>::empty());
    while i < instances.len()
        invariant
            orig.len() <= u32::MAX,
            instances@.len() == orig.len(),
            i <= orig.len(),
            cleared == count_preferring(orig.subrange(0, i as int), username@),
            forall|k: int|
                0 <= k < instances@.len() ==> {
                    let o = #[trigger] orig[k];
                    let n = instances@[k];
                    (k >= i ==> n == o) && (k < i ==> n == (Instance { preferred_account: if prefers(o, username@) { None } else { o.preferred_account }, ..o }))
                },
        decreases instances.len() - i,
    {
        proof {
            let t = orig.subrange(0, i + 1);
            assert(t.drop_last() =~= orig.subrange(0, i as int));
            assert(t.last() == orig[i as int]);
            lemma_count_bound(orig.subrange(0, i as int), username@);
        }
        let hit = match &instances[i].preferred_account {
            Some(p) => str_eq(p.as_str(), username),
            None => false,
        };
        if hit {
            let mut updated = instances.remove(i);
            updated.preferred_account = None;
            instances.insert(i, updated);
            cleared = cleared + 1;
        }
        i = i + 1;
    }
    assert(orig.subrange(0, orig.len() as int) =~= orig);
    cleared
}

/// Records a launch: the time it started and one more launch.
pub fn record_launch(instance: &mut Instance, now: String)
    ensures
        final(instance).last_played == Some(now),
        final(instance).total_launches == if old(instance).total_launches == u64::MAX { u64::MAX } else { (old(instance).total_launches + 1) as u64 },
        final(instance).playtime_seconds == old(instance).playtime_seconds,
        final(instance).id == old(instance).id,
{
    instance.last_played = Some(now);
    instance.total_launches = instance.total_launches.saturating_add(1);
}

/// Adds a played duration to an instance's playtime (saturating at the
/// largest `u64`).
pub fn add_playtime(instance: &mut Instance, seconds: u64)
    ensures
        final(instance).playtime_seconds == if old(instance).playtime_seconds + seconds > u64::MAX { u64::MAX as int } else { old(instance).playtime_seconds + seconds },
        final(instance).playtime_seconds >= old(instance).playtime_seconds,
        final(instance).id == old(instance).id,
        final(instance).total_launches == old(instance).total_launches,
{
    instance.playtime_seconds = instance.playtime_seconds.saturating_add(seconds);
}


/// Whether an instance has another identifier than `id`.
pub open spec fn other_id(id: Seq<char>) -> spec_fn(Instance) -> bool {
    |i: Instance| i.id@ != id
}

/// Removes the instances with identifier `id`; fails, changing nothing, when
/// there is none.
pub fn delete_instance(instances: &mut Vec<Instance>, id: &str) -> (r: Result<(), InstanceError>)
    ensures
        final(instances)@ == old(instances)@.filter(other_id(id@)),
        r is Ok <==> exists|j: int| 0 <= j < old(instances)@.len() && old(instances)@[j].id@ == id@,
        r is Err ==> r == Err::<(), InstanceError>(InstanceError::NotFound),
{
    let ghost orig = instances@;
    let n = instances.len();
    let mut kept: Vec<Instance> = Vec::new();
    let mut found = false;
    let mut j: usize = 0;
    assert(orig.subrange(0, 0).filter(other_id(id@)) =~= Seq::<Instance>::empty()) by {
        reveal(Seq::filter);
    }
    while instances.len() > 0
        invariant
            orig.len() == n,
            j <= n,
            instances@ == orig.subrange(j as int, n as int),
            kept@ == orig.subrange(0, j as int).filter(other_id(id@)),
            found <==> exists|q: int| 0 <= q < j && orig[q].id@ == id@,
        decreases instances.len(),
    {
        let inst = instances.remove(0);
        assert(inst == orig[j as int]);
        proof {
            assert(orig.subrange(0, j + 1) =~= orig.subrange(0, j as int).push(inst));
            orig.subrange(0, j as int).lemma_filter_push(inst, other_id(id@));
        }
        if str_eq(inst.id.as_str(), id) {
            found = true;
        } else {
            kept.push(inst);
        }
        j = j + 1;
        assert(instances@ =~= orig.subrange(j as int, n as int));
    }
    assert(orig.subrange(0, n as int) =~= orig);
    *instances = kept;
    if found {
        Ok(())
    } else {
        Err(InstanceError::NotFound)
    }
}

} // verus!
