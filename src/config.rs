//! The user's settings: the registered instances of starters.

use vstd::prelude::*;

verus! {

/// A directory of starter groups registered in the settings.
#[derive(Debug, Clone)]
pub struct JumpStartInstance {
    pub name: String,
    pub path: String,
    pub default: Option<bool>,
}

/// The settings: the registered instances, in the order listed.
#[derive(Debug, Clone)]
pub struct Config {
    pub instances: Vec<JumpStartInstance>,
}

impl Default for Config {
    /// One unnamed instance at the empty path, marked default.
    fn default() -> (r: Self)
        ensures
            r.instances.len() == 1,
            r.instances[0].name@.len() == 0,
            r.instances[0].path@.len() == 0,
            r.instances[0].default == Some(true),
    {
        let mut instances: Vec<JumpStartInstance> = Vec::new();
        instances.push(
            JumpStartInstance { name: String::new(), path: String::new(), default: Some(true) },
        );
        Config { instances }
    }
}

/// The instance marked default: the first one whose `default` is
/// `Some(true)`, or else the first one.
pub open spec fn default_index(instances: Seq<JumpStartInstance>) -> int {
    if exists|i: int| 0 <= i < instances.len() && instances[i].default == Some(true) {
        choose|i: int|
            0 <= i < instances.len() && instances[i].default == Some(true) && forall|j: int|
                0 <= j < i ==> instances[j].default != Some(true)
    } else {
        0
    }
}

/// Get the default instance, or the first instance if none is marked default
pub fn get_default_instance(config: &Config) -> (r: &JumpStartInstance)
    requires
        config.instances.len() > 0,
    ensures
        0 <= default_index(config.instances@) < config.instances.len(),
        *r == config.instances[default_index(config.instances@)],
{
    let mut i: usize = 0;
    while i < config.instances.len()
        invariant
            i <= config.instances.len(),
            forall|j: int| 0 <= j < i ==> config.instances[j].default != Some(true),
        decreases config.instances.len() - i,
    {
        if config.instances[i].default == Some(true) {
            proof {
                let ghost k = default_index(config.instances@);
                assert(0 <= k < config.instances.len() && config.instances[k].default == Some(true)
                    && forall|j: int| 0 <= j < k ==> config.instances[j].default != Some(true));
                if k < i {
                } else if k > i {
                    assert(config.instances[i as int].default == Some(true));
                }
                assert(k == i);
            }
            return &config.instances[i];
        }
        i += 1;
    }
    &config.instances[0]
}

/// The explicit instance path when one is given, else the path of the
/// default instance.
pub fn resolve_instance_path(config: &Config, instance_path: Option<&str>) -> (r: String)
    requires
        instance_path is None ==> config.instances.len() > 0,
    ensures
        match instance_path {
            Some(p) => r@ == p@,
            None => r@ == config.instances[default_index(config.instances@)].path@,
        },
{
    match instance_path {
        Some(p) => String::from_str(p),
        None => get_default_instance(config).path.clone(),
    }
}

} // verus!
