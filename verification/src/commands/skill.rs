//! The activation state that the skill list shows next to each skill.

use vstd::prelude::*;
use crate::repo::ConversationSkillRow;
use crate::ttl::strs;

verus! {

/// How a skill stands: disabled everywhere or not, and what the conversation
/// says of it (none: no record, the skill's source decides).
#[derive(Debug, Clone, Copy, PartialEq, Eq, Structural)]
pub struct SkillActivation {
    pub globally_disabled: bool,
    pub conversation_enabled: Option<bool>,
}

/// What the first record of a skill in a conversation says, if there is one.
pub open spec fn conversation_setting(rows: Seq<ConversationSkillRow>, name: Seq<char>) -> Option<bool>
    decreases rows.len(),
{
    if rows.len() == 0 {
        None
    } else if rows[0].skill_name@ == name {
        Some(rows[0].enabled)
    } else {
        conversation_setting(rows.drop_first(), name)
    }
}

/// The activation of the skill `name` from the globally disabled skills and
/// the conversation's skill records.
pub fn skill_activation(name: &String, disabled: &Vec<String>, conv_skills: &Vec<ConversationSkillRow>) -> (r:
    SkillActivation)
    ensures
        r.globally_disabled == strs(disabled@).contains(name@),
        r.conversation_enabled == conversation_setting(conv_skills@, name@),
{
    let globally_disabled = crate::store::contains_string(disabled, name);
    let n = conv_skills.len();
    let mut i: usize = 0;
    assert(conv_skills@.skip(0) =~= conv_skills@);
    while i < n
        invariant
            n == conv_skills@.len(),
            i <= n,
            globally_disabled == strs(disabled@).contains(name@),
            conversation_setting(conv_skills@, name@) == conversation_setting(
                conv_skills@.skip(i as int),
                name@,
            ),
        decreases n - i,
    {
        assert(conv_skills@.skip(i as int)[0] == conv_skills@[i as int]);
        assert(conv_skills@.skip(i as int).drop_first() =~= conv_skills@.skip(i + 1));
        if conv_skills[i].skill_name == *name {
            return SkillActivation { globally_disabled, conversation_enabled: Some(conv_skills[i].enabled) };
        }
        i = i + 1;
    }
    SkillActivation { globally_disabled, conversation_enabled: None }
}

} // verus!
