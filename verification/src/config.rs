//! The shared configuration: an ordered sequence of gesture rules,
//! replaced wholesale by the reload path and read by the event loop, and
//! the pure pieces of the configuration search path.

use crate::gestures::clone_bytes;
use crate::gestures::Gesture;
use crate::gestures::rules_view;
use crate::gestures::GestureV;
use vstd::prelude::*;

verus! {

/// Everything that can go wrong around a configuration.
#[derive(Clone, Copy, Debug, PartialEq, Eq, Structural)]
pub enum ConfigError {
    /// Neither of the environment variables that locate the configuration
    /// directory is set.
    NoConfigHome,
    /// The configuration file could not be read.
    Unreadable,
    /// The configuration text is malformed; the index of the first bad
    /// line (counting from zero).
    Parse { line: usize },
}

/// The configuration: the configured rules, in declaration order.
#[derive(Debug)]
pub struct Config {
    pub gestures: Vec<Gesture>,
}

/// Mathematical value of a configuration.
pub ghost struct ConfigV {
    pub gestures: Seq<GestureV>,
}

impl View for Config {
    type V = ConfigV;

    open spec fn view(&self) -> ConfigV {
        ConfigV { gestures: rules_view(self.gestures@) }
    }
}

impl Default for Config {
    /// The empty configuration.
    fn default() -> (c: Config)
        ensures
            c@.gestures == Seq::<GestureV>::empty(),
    {
        let c = Config { gestures: Vec::new() };
        proof {
            assert(c@.gestures =~= Seq::<GestureV>::empty());
        }
        c
    }
}

impl PartialEq for Config {
    fn eq(&self, other: &Self) -> (r: bool) {
        if self.gestures.len() != other.gestures.len() {
            proof {
                assert(self@.gestures.len() != other@.gestures.len());
            }
            return false;
        }
        let mut i: usize = 0;
        while i < self.gestures.len()
            invariant
                i <= self.gestures@.len(),
                self.gestures@.len() == other.gestures@.len(),
                forall|j: int| 0 <= j < i ==> self@.gestures[j] == other@.gestures[j],
            decreases self.gestures@.len() - i,
        {
            if !(self.gestures[i] == other.gestures[i]) {
                proof {
                    assert(self@.gestures[i as int] != other@.gestures[i as int]);
                }
                return false;
            }
            i += 1;
        }
        proof {
            assert(self@.gestures =~= other@.gestures);
        }
        true
    }
}

impl vstd::std_specs::cmp::PartialEqSpecImpl for Config {
    open spec fn obeys_eq_spec() -> bool {
        true
    }

    open spec fn eq_spec(&self, other: &Self) -> bool {
        self@ == other@
    }
}

impl Eq for Config {

}

/// Install the outcome of a reload: a freshly parsed configuration
/// replaces the current one wholesale, while any failure leaves the
/// current configuration untouched (never replaced with an empty one).
pub fn apply_reload(current: &mut Config, loaded: Result<Config, ConfigError>)
    ensures
        (match loaded {
            Result::Ok(c) => final(current)@ == c@,
            Result::Err(_) => final(current)@ == old(current)@,
        }),
{
    match loaded {
        Result::Ok(c) => {
            *current = c;
        },
        Result::Err(_) => {
        },
    }
}

/// The bytes of `/.config`.
pub open spec fn suffix_dot_config() -> Seq<u8> {
    seq![0x2Fu8, 0x2E, 0x63, 0x6F, 0x6E, 0x66, 0x69, 0x67]
}

/// The bytes of `/gestures.kdl`.
pub open spec fn suffix_gestures_kdl() -> Seq<u8> {
    seq![0x2Fu8, 0x67, 0x65, 0x73, 0x74, 0x75, 0x72, 0x65, 0x73, 0x2E, 0x6B, 0x64, 0x6C]
}

/// The bytes of `/gestures/gestures.kdl`.
pub open spec fn suffix_gestures_dir_kdl() -> Seq<u8> {
    seq![0x2Fu8, 0x67, 0x65, 0x73, 0x74, 0x75, 0x72, 0x65, 0x73] + suffix_gestures_kdl()
}

/// Concatenation of two byte strings.
pub fn concat_bytes(a: &Vec<u8>, b: &Vec<u8>) -> (r: Vec<u8>)
    ensures
        r@ == a@ + b@,
{
    let mut r = clone_bytes(a);
    let mut t = clone_bytes(b);
    r.append(&mut t);
    r
}

/// The bytes of `/.config` as a vector.
fn build_suffix_dot_config() -> (v: Vec<u8>)
    ensures
        v@ == suffix_dot_config(),
{
    let mut v: Vec<u8> = Vec::new();
    v.push(0x2F);
    v.push(0x2E);
    v.push(0x63);
    v.push(0x6F);
    v.push(0x6E);
    v.push(0x66);
    v.push(0x69);
    v.push(0x67);
    proof {
        assert(v@ =~= suffix_dot_config());
    }
    v
}

/// The bytes of `/gestures.kdl` as a vector.
fn build_suffix_gestures_kdl() -> (v: Vec<u8>)
    ensures
        v@ == suffix_gestures_kdl(),
{
    let mut v: Vec<u8> = Vec::new();
    v.push(0x2F);
    v.push(0x67);
    v.push(0x65);
    v.push(0x73);
    v.push(0x74);
    v.push(0x75);
    v.push(0x72);
    v.push(0x65);
    v.push(0x73);
    v.push(0x2E);
    v.push(0x6B);
    v.push(0x64);
    v.push(0x6C);
    proof {
        assert(v@ =~= suffix_gestures_kdl());
    }
    v
}

impl Config {
    /// The configuration directory, from the values of `XDG_CONFIG_HOME`
    /// and `HOME`: the former wins, the latter gains `/.config`, and
    /// without either there is no configuration directory.
    pub fn get_config_home(xdg_config_home: Option<&Vec<u8>>, home: Option<&Vec<u8>>) -> (r: Result<
        Vec<u8>,
        ConfigError,
    >)
        ensures
            (match (xdg_config_home, home) {
                (Option::Some(x), _) => r matches Result::Ok(v) && v@ == x@,
                (Option::None, Option::Some(h)) => r matches Result::Ok(v) && v@ == h@
                    + suffix_dot_config(),
                (Option::None, Option::None) => r == Result::<Vec<u8>, ConfigError>::Err(
                    ConfigError::NoConfigHome,
                ),
            }),
    {
        match xdg_config_home {
            Option::Some(x) => Result::Ok(clone_bytes(x)),
            Option::None => match home {
                Option::Some(h) => {
                    let suffix = build_suffix_dot_config();
                    Result::Ok(concat_bytes(h, &suffix))
                },
                Option::None => Result::Err(ConfigError::NoConfigHome),
            },
        }
    }

    /// The two paths searched for the configuration file under the
    /// configuration directory, in search order.
    pub fn config_search_paths(config_home: &Vec<u8>) -> (r: (Vec<u8>, Vec<u8>))
        ensures
            r.0@ == config_home@ + suffix_gestures_kdl(),
            r.1@ == config_home@ + suffix_gestures_dir_kdl(),
    {
        let kdl = build_suffix_gestures_kdl();
        let first = concat_bytes(config_home, &kdl);
        let mut dir: Vec<u8> = Vec::new();
        dir.push(0x2F);
        dir.push(0x67);
        dir.push(0x65);
        dir.push(0x73);
        dir.push(0x74);
        dir.push(0x75);
        dir.push(0x72);
        dir.push(0x65);
        dir.push(0x73);
        let mut second = concat_bytes(config_home, &dir);
        let mut tail = clone_bytes(&kdl);
        second.append(&mut tail);
        proof {
            assert(second@ =~= config_home@ + suffix_gestures_dir_kdl());
        }
        (first, second)
    }
}

} // verus!
