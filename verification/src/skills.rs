//! Saved skills: reusable PowerShell procedures with named parameters, how
//! they are listed, saved and run.
use vstd::prelude::*;
use crate::text;
use crate::text::{chars_of, concat2, concat3, join_strings, push_str, string_of};
use crate::encoding::parse_string_array;
use crate::sentences::string_views;

verus! {

/// A saved skill.
#[derive(Clone, Debug)]
pub struct SkillDef {
    pub name: String,
    pub description: String,
    pub parameters: Vec<String>,
    pub powershell_code: String,
}

/// How a skill is listed: its name, its parameters if it has any, and its
/// description.
pub open spec fn skill_line(name: Seq<char>, parameters: Seq<Seq<char>>, description: Seq<char>) -> Seq<char> {
    name + (if parameters.len() == 0 {
        Seq::empty()
    } else {
        " (params: "@ + text::join(parameters, ", "@) + ")"@
    }) + ": "@ + description
}

/// The listing of all skills, one per line, or a note that there are none.
pub open spec fn skills_summary(lines: Seq<Seq<char>>) -> Seq<char> {
    if lines.len() == 0 {
        "No skills saved yet."@
    } else {
        text::join(lines, "\n"@)
    }
}

/// The line that lists a skill.
pub fn skill_listing_line(skill: &SkillDef) -> (l: String)
    ensures
        l@ == skill_line(skill.name@, string_views(skill.parameters@), skill.description@),
{
    let mut v = chars_of(skill.name.as_str());
    if skill.parameters.len() > 0 {
        push_str(&mut v, " (params: ");
        let joined = join_strings(&skill.parameters, ", ");
        push_str(&mut v, joined.as_str());
        push_str(&mut v, ")");
    }
    push_str(&mut v, ": ");
    push_str(&mut v, skill.description.as_str());
    string_of(&v)
}

/// The listing of the skills found, in the order found.
pub fn skills_listing(skills: &Vec<SkillDef>) -> (l: String)
    ensures
        l@ == skills_summary(
            Seq::new(
                skills@.len(),
                |i: int|
                    skill_line(
                        skills@[i].name@,
                        string_views(skills@[i].parameters@),
                        skills@[i].description@,
                    ),
            ),
        ),
{
    let ghost lines = Seq::new(
        skills@.len(),
        |i: int|
            skill_line(
                skills@[i].name@,
                string_views(skills@[i].parameters@),
                skills@[i].description@,
            ),
    );
    if skills.len() == 0 {
        return string_of(&chars_of("No skills saved yet."));
    }
    let mut out: Vec<String> = Vec::new();
    let mut i: usize = 0;
    while i < skills.len()
        invariant
            0 <= i <= skills.len(),
            lines == Seq::new(
                skills@.len(),
                |i: int|
                    skill_line(
                        skills@[i].name@,
                        string_views(skills@[i].parameters@),
                        skills@[i].description@,
                    ),
            ),
            string_views(out@) == lines.take(i as int),
        decreases skills.len() - i,
    {
        let l = skill_listing_line(&skills[i]);
        let ghost before = string_views(out@);
        out.push(l);
        assert(string_views(out@) =~= before.push(l@));
        i = i + 1;
        assert(string_views(out@) =~= lines.take(i as int));
    }
    assert(lines.take(skills.len() as int) =~= lines);
    join_strings(&out, "\n")
}

/// The parameter names of a new skill: the strings of the JSON array given,
/// or none when the text is no JSON array of strings.
pub open spec fn parameter_names(parameters_json: Seq<char>) -> Seq<Seq<char>> {
    match crate::encoding::json_string_array(parameters_json) {
        Some(names) => names,
        None => Seq::empty(),
    }
}

/// The skill that `create_skill` saves: the parameter names are read from
/// the JSON array text `parameters_json`.
pub fn new_skill(name: &str, description: &str, parameters_json: &str, powershell_code: &str) -> (s:
    SkillDef)
    ensures
        s.name@ == name@,
        s.description@ == description@,
        string_views(s.parameters@) == parameter_names(parameters_json@),
        s.powershell_code@ == powershell_code@,
{
    let parameters = match parse_string_array(parameters_json) {
        Some(v) => v,
        None => {
            let v: Vec<String> = Vec::new();
            assert(string_views(v@) =~= Seq::<Seq<char>>::empty());
            v
        },
    };
    SkillDef {
        name: string_of(&chars_of(name)),
        description: string_of(&chars_of(description)),
        parameters,
        powershell_code: string_of(&chars_of(powershell_code)),
    }
}

/// The file a skill is stored in, inside the skills folder.
pub fn skill_file_name(name: &str) -> (f: String)
    ensures
        f@ == name@ + ".json"@,
{
    concat2(name, ".json")
}

/// The message after a skill was saved.
pub fn skill_saved_message(name: &str) -> (m: String)
    ensures
        m@ == "Skill '"@ + name@ + "' saved."@,
{
    concat3("Skill '", name, "' saved.")
}

/// The error when no skill of that name is stored.
pub fn skill_not_found_message(name: &str) -> (m: String)
    ensures
        m@ == "Skill '"@ + name@ + "' not found."@,
{
    concat3("Skill '", name, "' not found.")
}

/// A parameter value handed to a skill: a JSON string, or any other JSON
/// value given by its JSON text.
#[derive(Clone, Debug)]
pub enum SkillParam {
    Text(String),
    Json(String),
}

/// A string made safe inside a double-quoted PowerShell string: backticks
/// doubled, then double quotes and dollar signs escaped with a backtick.
pub open spec fn ps_escape(s: Seq<char>) -> Seq<char> {
    let a = text::replace_all(s, seq!['`'], seq!['`', '`']);
    let b = text::replace_all(a, seq!['"'], seq!['`', '"']);
    text::replace_all(b, seq!['$'], seq!['`', '$'])
}

/// What a parameter value says.
pub enum ParamView {
    Text(Seq<char>),
    Json(Seq<char>),
}

impl View for SkillParam {
    type V = ParamView;

    open spec fn view(&self) -> ParamView {
        match self {
            SkillParam::Text(s) => ParamView::Text(s@),
            SkillParam::Json(t) => ParamView::Json(t@),
        }
    }
}

/// What named parameters say.
pub open spec fn param_views(params: Seq<(String, SkillParam)>) -> Seq<(Seq<char>, ParamView)> {
    Seq::new(params.len(), |i: int| (params[i].0@, params[i].1@))
}

/// The members of the JSON object written in `text`, as serde_json's map
/// holds them: a string value as its text, any other value as its JSON text;
/// no members when `text` is no JSON object.
pub uninterp spec fn json_object_params(text: Seq<char>) -> Seq<(Seq<char>, ParamView)>;

/// `serde_json::from_str` into a JSON object, read as a skill's parameters.
/// Claimed: the members are those of the object written in the text (named,
/// not described: what serde_json takes as JSON, and how it writes a value
/// back as JSON text, is left to it).
#[verifier::external_body]
fn parse_skill_params(params: &str) -> (p: Vec<(String, SkillParam)>)
    ensures
        param_views(p@) == json_object_params(params@),
{
    let map: serde_json::Map<String, serde_json::Value> =
        serde_json::from_str(params).unwrap_or_default();
    let mut out = Vec::new();
    for (k, v) in map {
        let p = match v {
            serde_json::Value::String(s) => SkillParam::Text(s),
            other => SkillParam::Json(other.to_string()),
        };
        out.push((k, p));
    }
    out
}

/// The PowerShell text of a parameter value.
pub open spec fn param_value(p: ParamView) -> Seq<char> {
    match p {
        ParamView::Text(s) => seq!['"'] + ps_escape(s) + seq!['"'],
        ParamView::Json(t) => t,
    }
}

/// The assignments that set the skill's parameters before its code runs,
/// one line per parameter, in order.
pub open spec fn preamble(params: Seq<(Seq<char>, ParamView)>) -> Seq<char>
    decreases params.len(),
{
    if params.len() == 0 {
        Seq::empty()
    } else {
        preamble(params.drop_last()) + "$"@ + params.last().0 + " = "@ + param_value(
            params.last().1,
        ) + ";\n"@
    }
}

/// Escapes a string for a double-quoted PowerShell string.
pub fn escape_for_powershell(s: &str) -> (t: String)
    ensures
        t@ == ps_escape(s@),
{
    let v = chars_of(s);
    let tick = vec!['`'];
    let tick2 = vec!['`', '`'];
    let quote = vec!['"'];
    let quote2 = vec!['`', '"'];
    let dollar = vec!['$'];
    let dollar2 = vec!['`', '$'];
    assert(tick@ =~= seq!['`']);
    assert(tick2@ =~= seq!['`', '`']);
    assert(quote@ =~= seq!['"']);
    assert(quote2@ =~= seq!['`', '"']);
    assert(dollar@ =~= seq!['$']);
    assert(dollar2@ =~= seq!['`', '$']);
    let a = text::replace_chars(&v, &tick, &tick2);
    let b = text::replace_chars(&a, &quote, &quote2);
    let c = text::replace_chars(&b, &dollar, &dollar2);
    string_of(&c)
}

/// The command that runs a skill: one assignment per parameter, then the
/// skill's code.
pub fn skill_command(params: &Vec<(String, SkillParam)>, powershell_code: &str) -> (c: String)
    ensures
        c@ == preamble(param_views(params@)) + powershell_code@,
{
    let mut v: Vec<char> = Vec::new();
    let mut i: usize = 0;
    while i < params.len()
        invariant
            0 <= i <= params.len(),
            v@ == preamble(param_views(params@).take(i as int)),
        decreases params.len() - i,
    {
        let ghost pv = param_views(params@);
        assert(pv.take(i + 1).drop_last() =~= pv.take(i as int));
        assert(pv.take(i + 1).last() == pv[i as int]);
        push_str(&mut v, "$");
        push_str(&mut v, params[i].0.as_str());
        push_str(&mut v, " = ");
        match &params[i].1 {
            SkillParam::Text(s) => {
                v.push('"');
                let e = escape_for_powershell(s.as_str());
                push_str(&mut v, e.as_str());
                v.push('"');
            },
            SkillParam::Json(t) => {
                push_str(&mut v, t.as_str());
            },
        }
        push_str(&mut v, ";\n");
        i = i + 1;
    }
    assert(param_views(params@).take(params.len() as int) =~= param_views(params@));
    push_str(&mut v, powershell_code);
    string_of(&v)
}

/// The command that runs a skill with the parameters given as the JSON text
/// of an object: one assignment per member, then the skill's code.
pub fn skill_command_for(params_json: &str, powershell_code: &str) -> (c: String)
    ensures
        c@ == preamble(json_object_params(params_json@)) + powershell_code@,
{
    let params = parse_skill_params(params_json);
    skill_command(&params, powershell_code)
}

} // verus!
