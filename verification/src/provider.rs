//! DeepSeek, the sole backend of Aili.
use vstd::prelude::*;

use crate::text::contains;
use crate::text::has_part;

verus! {

pub const BASE_URL: &'static str = "https://api.deepseek.com/v1";

pub const API_KEY_ENV: &'static str = "DEEPSEEK_API_KEY";

pub const CONTEXT_WINDOW: usize = 1_000_000;

/// A model that the provider offers.
#[derive(Debug, Clone, Copy, PartialEq, Eq)]
pub struct DeepSeekModel {
    pub id: &'static str,
    pub name: &'static str,
    pub context_window: usize,
}

/// `m` is the fast model.
pub open spec fn is_flash(m: DeepSeekModel) -> bool {
    &&& m.id@ == "deepseek-v4-flash"@
    &&& m.name@ == "DeepSeek V4 Flash"@
    &&& m.context_window == CONTEXT_WINDOW
}

/// `m` is the large model.
pub open spec fn is_pro(m: DeepSeekModel) -> bool {
    &&& m.id@ == "deepseek-v4-pro"@
    &&& m.name@ == "DeepSeek V4 Pro"@
    &&& m.context_window == CONTEXT_WINDOW
}

/// The fast model.
pub fn v4_flash() -> (r: &'static DeepSeekModel)
    ensures
        is_flash(*r),
{
    &DeepSeekModel {
        id: "deepseek-v4-flash",
        name: "DeepSeek V4 Flash",
        context_window: CONTEXT_WINDOW,
    }
}

/// The large model.
pub fn v4_pro() -> (r: &'static DeepSeekModel)
    ensures
        is_pro(*r),
{
    &DeepSeekModel {
        id: "deepseek-v4-pro",
        name: "DeepSeek V4 Pro",
        context_window: CONTEXT_WINDOW,
    }
}

/// The model that a configuration without one uses.
pub fn default_model() -> (r: &'static DeepSeekModel)
    ensures
        is_flash(*r),
{
    v4_flash()
}

/// The models on offer, the default first.
pub fn model_presets() -> (r: Vec<DeepSeekModel>)
    ensures
        r@.len() == 2,
        is_flash(r@[0]),
        is_pro(r@[1]),
{
    vec![*v4_flash(), *v4_pro()]
}

/// What is known of a model: a name with `pro` in it is the large one.
pub fn model_info(model_id: &str) -> (r: &'static DeepSeekModel)
    ensures
        contains(model_id@, "pro"@) ==> is_pro(*r),
        !contains(model_id@, "pro"@) ==> is_flash(*r),
{
    if has_part(model_id, "pro") {
        v4_pro()
    } else {
        v4_flash()
    }
}

/// The models on offer are the two of the fourth version, each with room for a million
/// tokens.
pub proof fn law_models(flash: DeepSeekModel, pro: DeepSeekModel)
    requires
        is_flash(flash),
        is_pro(pro),
    ensures
        flash.id@ == "deepseek-v4-flash"@,
        flash.name@ == "DeepSeek V4 Flash"@,
        pro.id@ == "deepseek-v4-pro"@,
        pro.name@ == "DeepSeek V4 Pro"@,
        flash.context_window == 1_000_000 && pro.context_window == 1_000_000,
{
}

} // verus!
