pub mod frontmatter;

use vstd::prelude::*;

use crate::skills::frontmatter::{frontmatter_split, parse_frontmatter, yaml_nested_bool, yaml_str_field};
use crate::text::{chars_of, str_equal, string_of, trim, trim_chars};

verus! {

/// A skill: instructions the agent can follow, with the files that come with them.
#[derive(Debug)]
pub struct SkillDef {
    pub name: String,
    pub description: String,
    pub instructions: String,
    pub path: String,
    pub scripts: Vec<String>,
    pub templates: Vec<String>,
    pub references: Vec<String>,
    pub enabled: bool,
}

/// The skills found, at most one per name, in the order they were first found.
pub struct SkillRegistry {
    skills: Vec<SkillDef>,
    skills_dir: String,
}

/// No two skills share a name.
pub open spec fn names_unique(s: Seq<SkillDef>) -> bool {
    forall|i: int, j: int| 0 <= i < j < s.len() ==> (#[trigger] s[i]).name@ != (#[trigger] s[j]).name@
}

/// Where a skill named `name` stands in `s`.
pub open spec fn position_of(s: Seq<SkillDef>, name: Seq<char>) -> Option<int> {
    if exists|i: int| 0 <= i < s.len() && (#[trigger] s[i]).name@ == name {
        Some(choose|i: int| 0 <= i < s.len() && (#[trigger] s[i]).name@ == name)
    } else {
        None
    }
}

/// The enabled skills among the first `n`, in order.
pub open spec fn enabled_upto(s: Seq<SkillDef>, n: int) -> Seq<SkillDef>
    decreases n,
{
    if n <= 0 {
        Seq::empty()
    } else if s[n - 1].enabled {
        enabled_upto(s, n - 1).push(s[n - 1])
    } else {
        enabled_upto(s, n - 1)
    }
}

impl View for SkillRegistry {
    type V = Seq<SkillDef>;

    closed spec fn view(&self) -> Seq<SkillDef> {
        self.skills@
    }
}

/// What a skill's `SKILL.md` says of it: its name (else the directory's
/// name), its description (else empty), whether it is enabled (else yes),
/// and its instructions, the body without surrounding white space.
pub open spec fn skill_from_file(sk: SkillDef, dir_name: Seq<char>, content: Seq<char>) -> bool {
    match frontmatter_split(content) {
        Some((meta, body)) => {
            &&& sk.name@ == match yaml_str_field(meta, "name"@) {
                Some(n) => n,
                None => dir_name,
            }
            &&& sk.description@ == match yaml_str_field(meta, "description"@) {
                Some(d) => d,
                None => Seq::empty(),
            }
            &&& sk.enabled == match yaml_nested_bool(meta, "metadata"@, "enabled"@) {
                Some(b) => b,
                None => true,
            }
            &&& sk.instructions@ == trim(body)
        },
        None => {
            &&& sk.name@ == dir_name
            &&& sk.description@ == Seq::<char>::empty()
            &&& sk.enabled
            &&& sk.instructions@ == trim(content)
        },
    }
}

/// A directory whose name starts with `_` holds no skill.
pub fn is_skill_dir_name(name: &str) -> (r: bool)
    ensures
        r == !(name@.len() > 0 && name@[0] == '_'),
{
    let c = chars_of(name);
    !(c.len() > 0 && c[0] == '_')
}

impl SkillRegistry {
    pub closed spec fn wf(&self) -> bool {
        names_unique(self.skills@)
    }

    pub closed spec fn dir(&self) -> Seq<char> {
        self.skills_dir@
    }

    /// An empty registry for the skills under `skills_dir`.
    pub fn new(skills_dir: &str) -> (r: Self)
        ensures
            r.wf(),
            r@.len() == 0,
            r.dir() == skills_dir@,
    {
        SkillRegistry { skills: Vec::new(), skills_dir: String::from_str(skills_dir) }
    }

    pub fn skills_dir(&self) -> (r: &str)
        ensures
            r@ == self.dir(),
    {
        self.skills_dir.as_str()
    }

    /// Adds a skill; one with the same name is replaced in its place.
    /// Returns where it now stands.
    pub fn insert(&mut self, skill: SkillDef) -> (at: usize)
        requires
            old(self).wf(),
        ensures
            final(self).wf(),
            final(self).dir() == old(self).dir(),
            match position_of(old(self)@, skill.name@) {
                Some(i) => at == i && final(self)@ == old(self)@.update(i, skill),
                None => at == old(self)@.len() && final(self)@ == old(self)@.push(skill),
            },
    {
        let mut i: usize = 0;
        while i < self.skills.len()
            invariant
                i <= self.skills.len(),
                self@ == old(self)@,
                self.wf(),
                self.dir() == old(self).dir(),
                forall|k: int| 0 <= k < i ==> (#[trigger] self@[k]).name@ != skill.name@,
            decreases self.skills.len() - i,
        {
            if str_equal(self.skills[i].name.as_str(), skill.name.as_str()) {
                proof {
                    let p = position_of(old(self)@, skill.name@);
                    assert(old(self)@[i as int].name@ == skill.name@);
                    let c = choose|c: int| 0 <= c < old(self)@.len() && (#[trigger] old(self)@[c]).name@ == skill.name@;
                    assert(c == i) by {
                        if c < i {
                        } else if c > i {
                            assert(old(self)@[i as int].name@ != old(self)@[c].name@);
                        }
                    }
                }
                self.skills.set(i, skill);
                return i;
            }
            i = i + 1;
        }
        let at = self.skills.len();
        self.skills.push(skill);
        at
    }

    /// The enabled skills.
    pub fn get_all_skills(&self) -> (r: Vec<&SkillDef>)
        ensures
            r@.len() == enabled_upto(self@, self@.len() as int).len(),
            forall|k: int| 0 <= k < r@.len() ==> *r@[k] == enabled_upto(self@, self@.len() as int)[k],
    {
        let mut r: Vec<&SkillDef> = Vec::new();
        let mut i: usize = 0;
        while i < self.skills.len()
            invariant
                i <= self.skills.len(),
                r@.len() == enabled_upto(self@, i as int).len(),
                forall|k: int| 0 <= k < r@.len() ==> *r@[k] == enabled_upto(self@, i as int)[k],
            decreases self.skills.len() - i,
        {
            if self.skills[i].enabled {
                r.push(&self.skills[i]);
            }
            i = i + 1;
        }
        r
    }
}

impl SkillRegistry {
    /// Registers the skill described by `content`, the `SKILL.md` of the
    /// directory `dir_name` at `path`, with the files found beside it.
    /// Returns where it now stands.
    pub fn add_discovered(
        &mut self,
        dir_name: &str,
        path: String,
        content: &str,
        scripts: Vec<String>,
        templates: Vec<String>,
        references: Vec<String>,
    ) -> (r: usize)
        requires
            old(self).wf(),
        ensures
            final(self).wf(),
            final(self).dir() == old(self).dir(),
            r < final(self)@.len(),
            skill_from_file(final(self)@[r as int], dir_name@, content@),
            final(self)@[r as int].path == path,
            final(self)@[r as int].scripts == scripts,
            final(self)@[r as int].templates == templates,
            final(self)@[r as int].references == references,
            match position_of(old(self)@, final(self)@[r as int].name@) {
                Some(i) => r == i && final(self)@ == old(self)@.update(i, final(self)@[r as int]),
                None => r == old(self)@.len() && final(self)@ == old(self)@.push(final(self)@[r as int]),
            },
    {
        let (meta, body) = parse_frontmatter(content);
        let name = match meta.str_field("name") {
            Some(n) => n,
            None => String::from_str(dir_name),
        };
        let description = match meta.str_field("description") {
            Some(d) => d,
            None => String::new(),
        };
        let enabled = match meta.nested_bool("metadata", "enabled") {
            Some(b) => b,
            None => true,
        };
        let bc = chars_of(body.as_str());
        let instructions = string_of(&trim_chars(&bc));
        let skill = SkillDef {
            name,
            description,
            instructions,
            path,
            scripts,
            templates,
            references,
            enabled,
        };
        let ghost sk = skill;
        let at = self.insert(skill);
        proof {
            assert(self@[at as int] == sk);
        }
        at
    }
}

} // verus!
