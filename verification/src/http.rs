//! Request handling logic of the HTTP surface: the defaults and the
//! override posture of an assemble request.

use vstd::prelude::*;

use crate::assemble::{AssembleParams, OverridePosture};
use crate::config::Config;
use crate::error::{ContextError, Result};
use crate::payload::{content_hash, spec_content_hash};
use crate::text::{chars_of, concat, str_eq, string_from_chars, vec_slice};

verus! {

/// The body of an assemble request.
pub struct AssembleReq {
    pub repo_id: String,
    pub repo_root: String,
    pub target_file: String,
    pub task_intent_id: Option<String>,
    pub task_family: Option<String>,
    pub task_version: Option<String>,
    pub max_source_age_minutes: Option<u64>,
    pub override_posture: Option<String>,
}

/// The message of an unknown override posture.
pub open spec fn unknown_override_message(raw: Seq<char>) -> Seq<char> {
    "unknown override_posture '"@ + raw + "' (expected disallow_all | allow_style)"@
}

/// The override posture a request names (`disallow_all` when it names
/// none): `disallow_all`, or `allow_style` /
/// `allow_accepted_style_rule_records`; anything else is a bad request.
pub fn parse_override(raw: Option<&str>) -> (r: Result<OverridePosture>)
    ensures
        match raw {
            None => r matches Ok(p) && p == OverridePosture::DisallowAll,
            Some(s) => if s@ == "disallow_all"@ {
                r matches Ok(p) && p == OverridePosture::DisallowAll
            } else if s@ == "allow_style"@ || s@ == "allow_accepted_style_rule_records"@ {
                r matches Ok(p) && p == OverridePosture::AllowAcceptedStyleRuleRecords
            } else {
                r matches Err(ContextError::BadRequest(m)) && m@ == unknown_override_message(s@)
            },
        },
{
    let s = match raw {
        None => {
            return Ok(OverridePosture::DisallowAll);
        },
        Some(s) => s,
    };
    if str_eq(s, "disallow_all") {
        Ok(OverridePosture::DisallowAll)
    } else if str_eq(s, "allow_style") || str_eq(s, "allow_accepted_style_rule_records") {
        Ok(OverridePosture::AllowAcceptedStyleRuleRecords)
    } else {
        let mut m = "unknown override_posture '".to_owned();
        m.append(s);
        m.append("' (expected disallow_all | allow_style)");
        Err(ContextError::BadRequest(m))
    }
}

/// `ti_codefix_` and the first 16 hex digits of the hash of
/// `<repo_id>:<target_file>`.
pub open spec fn spec_default_task_intent_id(repo_id: Seq<char>, target_file: Seq<char>) -> Seq<char> {
    "ti_codefix_"@ + spec_content_hash(repo_id + seq![':'] + target_file).take(16)
}

/// The task intent id used when a request names none.
pub fn default_task_intent_id(repo_id: &str, target_file: &str) -> (id: String)
    ensures
        id@ == spec_default_task_intent_id(repo_id@, target_file@),
{
    let mut seed = repo_id.to_owned();
    seed.append(":");
    seed.append(target_file);
    proof {
        reveal_strlit(":");
        assert(seed@ =~= repo_id@ + seq![':'] + target_file@);
    }
    let h = content_hash(seed.as_str());
    let c = chars_of(h.as_str());
    let head = string_from_chars(vec_slice(&c, 0, 16).as_slice());
    assert(head@ =~= h@.take(16));
    concat("ti_codefix_", head.as_str())
}

pub open spec fn or_default(o: Option<String>, d: Seq<char>) -> Seq<char> {
    match o {
        Some(s) => s@,
        None => d,
    }
}

/// The assembly parameters of a request: the request's values, with the
/// defaults for what it omits (a task intent id derived from repo and
/// target, task family `code_fix`, task version `v1`, the configured
/// freshness ceiling, override posture `disallow_all`). Fails with
/// `BadRequest` on an unknown override posture.
pub fn assemble_params(req: AssembleReq, cfg: &Config) -> (r: Result<AssembleParams>)
    ensures
        ({
            let posture = match req.override_posture {
                Some(s) => s@,
                None => "disallow_all"@,
            };
            if posture == "disallow_all"@ || posture == "allow_style"@ || posture
                == "allow_accepted_style_rule_records"@ {
                r matches Ok(p) && {
                    &&& p.repo_id@ == req.repo_id@
                    &&& p.repo_root@ == req.repo_root@
                    &&& p.target_file@ == req.target_file@
                    &&& p.task_intent_id@ == or_default(
                        req.task_intent_id,
                        spec_default_task_intent_id(req.repo_id@, req.target_file@),
                    )
                    &&& p.task_family@ == or_default(req.task_family, "code_fix"@)
                    &&& p.task_version@ == or_default(req.task_version, "v1"@)
                    &&& p.max_source_age_minutes == match req.max_source_age_minutes {
                        Some(m) => m,
                        None => cfg.default_max_source_age_minutes,
                    }
                    &&& p.override_posture == (if posture == "disallow_all"@ {
                        OverridePosture::DisallowAll
                    } else {
                        OverridePosture::AllowAcceptedStyleRuleRecords
                    })
                }
            } else {
                r matches Err(ContextError::BadRequest(m)) && m@ == unknown_override_message(posture)
            }
        }),
{
    let task_intent_id = match req.task_intent_id {
        Some(t) => t,
        None => default_task_intent_id(req.repo_id.as_str(), req.target_file.as_str()),
    };
    let task_family = match req.task_family {
        Some(t) => t,
        None => "code_fix".to_owned(),
    };
    let task_version = match req.task_version {
        Some(t) => t,
        None => "v1".to_owned(),
    };
    let max_source_age_minutes = match req.max_source_age_minutes {
        Some(m) => m,
        None => cfg.default_max_source_age_minutes,
    };
    let override_posture = match &req.override_posture {
        Some(s) => parse_override(Some(s.as_str())),
        None => parse_override(None),
    };
    let override_posture = match override_posture {
        Ok(p) => p,
        Err(e) => {
            return Err(e);
        },
    };
    Ok(
        AssembleParams {
            repo_id: req.repo_id,
            repo_root: req.repo_root,
            target_file: req.target_file,
            task_intent_id,
            task_family,
            task_version,
            max_source_age_minutes,
            override_posture,
        },
    )
}

} // verus!
