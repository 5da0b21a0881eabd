use vstd::prelude::*;

use crate::text::{chars_of, starts_with, starts_with_str};

verus! {

/// Asks the model to think in the first person, in character.
pub const DEEPSEEK_ROLE_IMMERSION: &'static str = "\n\n【角色沉浸要求】在你的思考过程（thinking标签内）中，请遵守以下规则：\n1. 请以角色第一人称进行内心独白，用括号包裹内心活动，例如\"（心想：……）\"或\"(内心OS：……)\"\n2. 用第一人称描写角色的内心感受，例如\"我心想\"\"我觉得\"\"我暗自\"等\n3. 思考内容应沉浸在角色中，通过内心独白分析剧情和规划回复";

/// Model-specific adjustments of the system prompt.
pub struct ModelPatch {
    role_immersion: bool,
}

impl View for ModelPatch {
    type V = bool;

    /// Whether the role-immersion request is added.
    closed spec fn view(&self) -> bool {
        self.role_immersion
    }
}

impl ModelPatch {
    /// Role immersion is on for DeepSeek models unless the configuration says otherwise.
    pub fn new(model: &str, config_override: Option<bool>) -> (r: Self)
        ensures
            r@ == match config_override {
                Some(v) => v,
                None => starts_with(model@, "deepseek"@),
            },
    {
        let role_immersion = match config_override {
            Some(v) => v,
            None => {
                let m = chars_of(model);
                starts_with_str(&m, "deepseek")
            },
        };
        ModelPatch { role_immersion }
    }

    pub fn apply_to_system_prompt(&self, content: &str) -> (r: String)
        ensures
            r@ == if self@ {
                content@ + DEEPSEEK_ROLE_IMMERSION@
            } else {
                content@
            },
    {
        let mut result = String::from_str(content);
        if self.role_immersion {
            result.append(DEEPSEEK_ROLE_IMMERSION);
        }
        result
    }
}

} // verus!
