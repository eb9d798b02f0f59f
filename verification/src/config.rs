//! The configuration of a run: where the registry is, and the platform
//! that requests are resolved for.

use vstd::prelude::*;
use vstd::string::*;
use crate::cli::args::Args;
use crate::text::text_of;
use crate::error::FdmError;
use crate::types::platform::{platform_of, platform_of_host, HostOs, HostWidth, PlatformArch};

verus! {

/// The configuration of a run.
#[derive(Debug)]
pub struct Config {
    /// The path of the local registry, where the run is offline.
    pub offline_registry_url: Option<String>,
    /// The URL of the registry.
    pub online_registry_url: String,
    /// The platform that requests without a platform are resolved for.
    pub platform: PlatformArch,
}

/// What a [`Config`] stands for.
pub struct ConfigView {
    pub offline_registry_url: Option<Seq<char>>,
    pub online_registry_url: Seq<char>,
    pub platform: PlatformArch,
}

impl View for Config {
    type V = ConfigView;

    open spec fn view(&self) -> ConfigView {
        ConfigView {
            offline_registry_url: text_of(self.offline_registry_url),
            online_registry_url: self.online_registry_url@,
            platform: self.platform,
        }
    }
}

/// The URL of the registry that is used where none is given.
pub open spec fn default_registry() -> Seq<char> {
    "http://uav.radar-mms.com/gitlab/test/rdm/rdm-registry"@
}

/// The configuration that the arguments make of `old`. An offline run
/// needs the path of the local registry, and the target needs both its
/// operating system and its architecture or neither.
pub open spec fn config_after(old: ConfigView, args: Args) -> Result<ConfigView, FdmError> {
    if args.offline && args.local is None {
        Err(FdmError::OfflineWithoutLocal)
    } else if (args.operating_system is Some) != (args.architecture is Some) {
        Err(FdmError::IncompleteTarget)
    } else {
        Ok(
            ConfigView {
                offline_registry_url: if args.offline {
                    text_of(args.local)
                } else {
                    old.offline_registry_url
                },
                online_registry_url: match args.registry {
                    Some(url) => url@,
                    None => old.online_registry_url,
                },
                platform: match (args.operating_system, args.architecture) {
                    (Some(os), Some(arch)) => platform_of(os@ + "-"@ + arch@),
                    _ => old.platform,
                },
            },
        )
    }
}

/// Where the registry is cloned from: the local registry where the run
/// is offline, and the URL of the registry otherwise.
pub open spec fn registry_location_of(c: ConfigView) -> Seq<char> {
    match c.offline_registry_url {
        Some(path) => path,
        None => c.online_registry_url,
    }
}

impl Config {
    /// The configuration of an online run with the default registry, on
    /// the platform of the host, given the pointer width that was found
    /// for it.
    pub fn from_env(width: HostWidth) -> (r: Config)
        ensures
            r@.offline_registry_url is None,
            r@.online_registry_url == default_registry(),
            exists|os: HostOs| r@.platform == platform_of_host(os, width),
            r@.platform != PlatformArch::Any,
    {
        Config::new(PlatformArch::from_env(width))
    }

    /// The configuration of an online run with the default registry, on
    /// the given platform.
    pub fn new(platform: PlatformArch) -> (r: Config)
        ensures
            r@ == (ConfigView {
                offline_registry_url: None,
                online_registry_url: default_registry(),
                platform,
            }),
    {
        Config {
            offline_registry_url: None,
            online_registry_url: String::from_str(
                "http://uav.radar-mms.com/gitlab/test/rdm/rdm-registry",
            ),
            platform,
        }
    }

    /// Takes over what the arguments say. Where they contradict each
    /// other the configuration stays as it was.
    pub fn load_args(&mut self, args: &Args) -> (r: Result<(), FdmError>)
        ensures
            match r {
                Ok(_) => config_after(old(self)@, *args) == Ok::<ConfigView, FdmError>(
                    final(self)@,
                ),
                Err(e) => config_after(old(self)@, *args) == Err::<ConfigView, FdmError>(e)
                    && *final(self) == *old(self),
            },
    {
        if args.offline && args.local.is_none() {
            return Err(FdmError::OfflineWithoutLocal);
        }
        if args.operating_system.is_some() != args.architecture.is_some() {
            return Err(FdmError::IncompleteTarget);
        }
        if args.offline {
            match &args.local {
                Some(path) => {
                    self.offline_registry_url = Some(path.clone());
                },
                None => {},
            }
        }
        match &args.registry {
            Some(url) => {
                self.online_registry_url = url.clone();
            },
            None => {},
        }
        match (&args.operating_system, &args.architecture) {
            (Some(os), Some(arch)) => {
                let mut tag = os.clone();
                tag.append("-");
                tag.append(arch.as_str());
                self.platform = PlatformArch::parse(tag.as_str());
            },
            _ => {},
        }
        Ok(())
    }

    /// Where the registry is cloned from.
    pub fn registry_location(&self) -> (r: String)
        ensures
            r@ == registry_location_of(self@),
    {
        match &self.offline_registry_url {
            Some(path) => path.clone(),
            None => self.online_registry_url.clone(),
        }
    }
}

} // verus!
