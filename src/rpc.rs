use vstd::prelude::*;

use crate::app_state::{project_ids, AppState, Project};
use crate::database::sent_since;
use crate::device_info::{DeviceInfo, HostInfo};
use crate::planificator::{lookup, lower_of, os_excluded, planify_action, planned, PlanificatorResult};

verus! {

/// One project as the account-manager reply lists it.
pub struct RpcAccount {
    pub url: String,
    pub url_signature: String,
    pub authenticator: String,
    pub resource_share: u16,
    pub detach: u8,
}

/// The account-manager reply.
pub struct RpcResponse {
    pub name: String,
    pub signing_key: String,
    pub account: Vec<RpcAccount>,
}

/// An account-manager request.
pub struct RpcQuery {
    pub name: String,
    pub host_info: HostInfo,
}

/// The share listed for a project of weight `planned` (`None` when the
/// project was left out).
pub open spec fn share_of(planned: Option<int>) -> int {
    match planned {
        Some(p) => p,
        None => 0,
    }
}

/// `acc` lists registry entry `entry` of a gateway at `base_url` with the
/// weight the plan `entries` gives it; it is detached exactly when that
/// weight is zero.
pub open spec fn is_account_for(acc: RpcAccount, base_url: Seq<char>, entry: (String, Project), entries: Seq<(Seq<char>, int)>) -> bool {
    &&& acc.url@ == base_url + "/proxy/"@ + entry.0@ + "/"@
    &&& acc.url_signature == entry.1.url_signature
    &&& acc.authenticator == entry.1.authenticator
    &&& acc.resource_share == share_of(lookup(entries, entry.0@))
    &&& acc.detach == (if acc.resource_share == 0 { 1u8 } else { 0u8 })
}

/// One account per registry entry, in registry order.
pub open spec fn lists_registry(r: RpcResponse, app_state: AppState, entries: Seq<(Seq<char>, int)>) -> bool {
    &&& r.name == app_state.account_manager_name
    &&& r.signing_key == app_state.signing_key
    &&& r.account@.len() == app_state.projects@.len()
    &&& forall|i: int| 0 <= i < r.account@.len() ==> is_account_for(#[trigger] r.account@[i], app_state.base_url@, app_state.projects@[i], entries)
}

impl RpcResponse {
    /// The reply that lists every registered project with its planned weight,
    /// or weight zero and detached when the plan left it out.
    pub fn new_from_planificator_result(app_state: &AppState, plan_result: &PlanificatorResult) -> (r: Self)
        ensures
            lists_registry(r, *app_state, plan_result.entries()),
    {
        let mut account: Vec<RpcAccount> = Vec::new();
        let n = app_state.projects.len();
        let mut i: usize = 0;
        while i < n
            invariant
                n == app_state.projects@.len(),
                i <= n,
                account@.len() == i,
                forall|j: int| 0 <= j < i ==> is_account_for(#[trigger] account@[j], app_state.base_url@, app_state.projects@[j], plan_result.entries()),
            decreases n - i,
        {
            let (project_id, project) = (&app_state.projects[i].0, &app_state.projects[i].1);
            let priority: u16 = match plan_result.priority_of(project_id) {
                Some(p) => p,
                None => 0,
            };
            account.push(RpcAccount {
                url: app_state.get_proxy_url(project_id.as_str()),
                url_signature: project.url_signature.clone(),
                authenticator: project.authenticator.clone(),
                resource_share: priority,
                detach: if priority == 0 { 1 } else { 0 },
            });
            i = i + 1;
        }
        RpcResponse {
            name: app_state.account_manager_name.clone(),
            signing_key: app_state.signing_key.clone(),
            account,
        }
    }
}

/// Answers an account-manager request: `None` (refused) when the claimed
/// name is not the configured shared secret, else the reply built from the
/// planificator's weights for the device.
pub fn rpc_reply(app_state: &AppState, query: RpcQuery) -> (r: Option<RpcResponse>)
    ensures
        r is None <==> query.name@ != app_state.weak_auth@,
        r matches Some(resp) ==> lists_registry(
            resp,
            *app_state,
            planned(
                project_ids(app_state.projects@),
                os_excluded(lower_of(query.host_info.os_name@)),
                sent_since(app_state.database.work_units(), query.host_info.host_cpid@, 0),
            ),
        ),
{
    if query.name != app_state.weak_auth {
        return None;
    }
    let device = DeviceInfo { host_info: query.host_info };
    let plan = planify_action(app_state, &device);
    Some(RpcResponse::new_from_planificator_result(app_state, &plan))
}

} // verus!
