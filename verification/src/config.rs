use vstd::prelude::*;

verus! {

/// The failures a configuration update can report.
#[derive(Clone, Copy, Debug, PartialEq, Eq, Structural)]
pub enum ConfigError {
    MaxFeeUnderMinFee,
    MaxTimeUnderMinTime,
    RewardSmallerThanFee,
    CreationFeeTooHigh,
    CancellationFeeTooHigh,
}

/// The controller's configuration, over plain values.
#[derive(Debug)]
pub struct Config {
    pub owner: String,
    pub fee_collector: String,
    pub minimum_reward: u128,
    pub creation_fee_percentage: u64,
    pub cancellation_fee_percentage: u64,
    pub a_max: u128,
    pub a_min: u128,
    pub t_max: u64,
    pub t_min: u64,
    pub q_max: u64,
}

/// A configuration update; a field left `None` keeps its value.
#[derive(Debug)]
pub struct UpdateConfigMsg {
    pub owner: Option<String>,
    pub fee_collector: Option<String>,
    pub minimum_reward: Option<u128>,
    pub creation_fee_percentage: Option<u64>,
    pub cancellation_fee_percentage: Option<u64>,
    pub a_max: Option<u128>,
    pub a_min: Option<u128>,
    pub t_max: Option<u64>,
    pub t_min: Option<u64>,
    pub q_max: Option<u64>,
}

pub open spec fn upd_u128(o: Option<u128>, d: u128) -> u128 {
    match o {
        Some(x) => x,
        None => d,
    }
}

pub open spec fn upd_u64(o: Option<u64>, d: u64) -> u64 {
    match o {
        Some(x) => x,
        None => d,
    }
}

/// The first constraint the merged configuration breaks, in check
/// order, or none.
pub open spec fn spec_config_error(cfg: Config, msg: UpdateConfigMsg) -> Option<ConfigError> {
    let minimum_reward = upd_u128(msg.minimum_reward, cfg.minimum_reward);
    let creation = upd_u64(msg.creation_fee_percentage, cfg.creation_fee_percentage);
    let cancellation = upd_u64(msg.cancellation_fee_percentage, cfg.cancellation_fee_percentage);
    let a_max = upd_u128(msg.a_max, cfg.a_max);
    let a_min = upd_u128(msg.a_min, cfg.a_min);
    let t_max = upd_u64(msg.t_max, cfg.t_max);
    let t_min = upd_u64(msg.t_min, cfg.t_min);
    if a_max < a_min {
        Some(ConfigError::MaxFeeUnderMinFee)
    } else if t_max < t_min {
        Some(ConfigError::MaxTimeUnderMinTime)
    } else if minimum_reward < a_min {
        Some(ConfigError::RewardSmallerThanFee)
    } else if creation > 100 {
        Some(ConfigError::CreationFeeTooHigh)
    } else if cancellation > 100 {
        Some(ConfigError::CancellationFeeTooHigh)
    } else {
        None
    }
}

/// Merge an update into a configuration: absent fields keep their
/// value, and the merged result must satisfy the fee and time bound
/// constraints. Authorization stays with the caller.
pub fn apply_config_update(cfg: Config, msg: UpdateConfigMsg) -> (r: Result<Config, ConfigError>)
    ensures
        match r {
            Ok(out) => {
                &&& spec_config_error(cfg, msg) is None
                &&& out.owner == (match msg.owner {
                    Some(o) => o,
                    None => cfg.owner,
                })
                &&& out.fee_collector == (match msg.fee_collector {
                    Some(o) => o,
                    None => cfg.fee_collector,
                })
                &&& out.minimum_reward == upd_u128(msg.minimum_reward, cfg.minimum_reward)
                &&& out.creation_fee_percentage == upd_u64(
                    msg.creation_fee_percentage,
                    cfg.creation_fee_percentage,
                )
                &&& out.cancellation_fee_percentage == upd_u64(
                    msg.cancellation_fee_percentage,
                    cfg.cancellation_fee_percentage,
                )
                &&& out.a_max == upd_u128(msg.a_max, cfg.a_max)
                &&& out.a_min == upd_u128(msg.a_min, cfg.a_min)
                &&& out.t_max == upd_u64(msg.t_max, cfg.t_max)
                &&& out.t_min == upd_u64(msg.t_min, cfg.t_min)
                &&& out.q_max == upd_u64(msg.q_max, cfg.q_max)
            },
            Err(e) => spec_config_error(cfg, msg) == Some(e),
        },
{
    let out = Config {
        owner: match msg.owner {
            Some(o) => o,
            None => cfg.owner,
        },
        fee_collector: match msg.fee_collector {
            Some(o) => o,
            None => cfg.fee_collector,
        },
        minimum_reward: match msg.minimum_reward {
            Some(x) => x,
            None => cfg.minimum_reward,
        },
        creation_fee_percentage: match msg.creation_fee_percentage {
            Some(x) => x,
            None => cfg.creation_fee_percentage,
        },
        cancellation_fee_percentage: match msg.cancellation_fee_percentage {
            Some(x) => x,
            None => cfg.cancellation_fee_percentage,
        },
        a_max: match msg.a_max {
            Some(x) => x,
            None => cfg.a_max,
        },
        a_min: match msg.a_min {
            Some(x) => x,
            None => cfg.a_min,
        },
        t_max: match msg.t_max {
            Some(x) => x,
            None => cfg.t_max,
        },
        t_min: match msg.t_min {
            Some(x) => x,
            None => cfg.t_min,
        },
        q_max: match msg.q_max {
            Some(x) => x,
            None => cfg.q_max,
        },
    };
    if out.a_max < out.a_min {
        return Err(ConfigError::MaxFeeUnderMinFee);
    }
    if out.t_max < out.t_min {
        return Err(ConfigError::MaxTimeUnderMinTime);
    }
    if out.minimum_reward < out.a_min {
        return Err(ConfigError::RewardSmallerThanFee);
    }
    if out.creation_fee_percentage > 100 {
        return Err(ConfigError::CreationFeeTooHigh);
    }
    if out.cancellation_fee_percentage > 100 {
        return Err(ConfigError::CancellationFeeTooHigh);
    }
    Ok(out)
}

} // verus!
