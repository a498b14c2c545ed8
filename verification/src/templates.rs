//! Query template types: templates with named `{{parameter}}` placeholders,
//! their categories, the request shapes of the template store, filtering and
//! sorting, import results, and parameter substitution outcomes.
//!
//! The template store itself lives in a database and is the embedding
//! runtime's part; these are the values it traffics in.

use vstd::prelude::*;

use crate::codec::push_char;

verus! {

/// One named placeholder of a template.
#[derive(Debug, Clone)]
pub struct TemplateParameter {
    /// The parameter's own id.
    pub id: String,
    /// The template it belongs to.
    pub template_id: String,
    /// The placeholder name, as in `{{start_date}}`.
    pub name: String,
    /// The value substituted when none is supplied.
    pub default_value: Option<String>,
    /// What the parameter means.
    pub description: Option<String>,
}

/// A request to create a template.
#[derive(Debug, Clone)]
pub struct CreateTemplateRequest {
    pub name: String,
    pub description: Option<String>,
    pub category_id: String,
    pub content: String,
    pub parameters: Vec<CreateParameterRequest>,
}

/// A request to create one parameter of a template.
#[derive(Debug, Clone)]
pub struct CreateParameterRequest {
    pub name: String,
    pub default_value: Option<String>,
    pub description: Option<String>,
}

/// A request to update a template; absent fields stay as they are.
#[derive(Debug, Clone)]
pub struct UpdateTemplateRequest {
    pub name: Option<String>,
    pub description: Option<String>,
    pub category_id: Option<String>,
    pub content: Option<String>,
    pub parameters: Option<Vec<CreateParameterRequest>>,
    pub is_favorite: Option<bool>,
}

/// A request to create a category.
#[derive(Debug, Clone)]
pub struct CreateCategoryRequest {
    pub name: String,
    pub parent_id: Option<String>,
}

/// A request to update a category; absent fields stay as they are.
#[derive(Debug, Clone)]
pub struct UpdateCategoryRequest {
    pub name: Option<String>,
    pub parent_id: Option<String>,
}

/// What templates may be sorted by.
#[derive(Debug, Clone, Copy, PartialEq, Eq, Structural)]
pub enum TemplateSortBy {
    Name,
    CreatedAt,
    UpdatedAt,
    UsageCount,
}

impl Default for TemplateSortBy {
    /// Sorting defaults to the last update.
    fn default() -> (r: Self)
        ensures
            r == TemplateSortBy::UpdatedAt,
    {
        TemplateSortBy::UpdatedAt
    }
}

/// Sort direction.
#[derive(Debug, Clone, Copy, PartialEq, Eq, Structural)]
pub enum SortOrder {
    Asc,
    Desc,
}

impl Default for SortOrder {
    /// Sorting defaults to newest first.
    fn default() -> (r: Self)
        ensures
            r == SortOrder::Desc,
    {
        SortOrder::Desc
    }
}

/// A filter over the template store.
#[derive(Debug, Clone)]
pub struct TemplateFilter {
    pub search_query: Option<String>,
    pub category_id: Option<String>,
    pub is_favorite: Option<bool>,
    pub sort_by: Option<TemplateSortBy>,
    pub sort_order: Option<SortOrder>,
    pub limit: Option<u32>,
    pub offset: Option<u32>,
}

impl Default for TemplateFilter {
    /// The stock filter: everything, newest updates first.
    fn default() -> (r: Self)
        ensures
            r.search_query is None,
            r.category_id is None,
            r.is_favorite is None,
            r.sort_by == Some(TemplateSortBy::UpdatedAt),
            r.sort_order == Some(SortOrder::Desc),
            r.limit is None,
            r.offset is None,
    {
        TemplateFilter {
            search_query: None,
            category_id: None,
            is_favorite: None,
            sort_by: Some(TemplateSortBy::UpdatedAt),
            sort_order: Some(SortOrder::Desc),
            limit: None,
            offset: None,
        }
    }
}

/// What an import did: how much came in, how much was skipped, and what
/// went wrong.
#[derive(Debug, Clone)]
pub struct TemplateImportResult {
    pub imported_templates: u32,
    pub imported_categories: u32,
    pub skipped_duplicates: u32,
    pub errors: Vec<String>,
}

/// One applied substitution.
#[derive(Debug, Clone)]
pub struct ParameterSubstitution {
    /// The placeholder name substituted.
    pub parameter_name: String,
    /// The value it received.
    pub value: String,
}

/// The outcome of substituting parameters into a template: the content
/// before and after, what was substituted, and which parameters had
/// neither a value nor a default.
#[derive(Debug, Clone)]
pub struct ProcessedTemplate {
    pub original_content: String,
    pub processed_content: String,
    pub substitutions: Vec<ParameterSubstitution>,
    pub missing_parameters: Vec<String>,
}

/// Everything a template operation can fail with.
#[derive(Debug, Clone)]
pub enum TemplateError {
    NotFound(String),
    DuplicateName(String),
    InvalidCategory(String),
    DatabaseError(String),
    ValidationError(String),
    ImportError(String),
    ExportError(String),
}

impl TemplateError {
    /// The descriptive text of this error.
    pub open spec fn message_spec(self) -> Seq<char> {
        match self {
            TemplateError::NotFound(s) => "Template not found: "@ + s@,
            TemplateError::DuplicateName(s) => "Template name already exists: "@ + s@,
            TemplateError::InvalidCategory(s) => "Invalid category: "@ + s@,
            TemplateError::DatabaseError(s) => "Database error: "@ + s@,
            TemplateError::ValidationError(s) => "Validation error: "@ + s@,
            TemplateError::ImportError(s) => "Import error: "@ + s@,
            TemplateError::ExportError(s) => "Export error: "@ + s@,
        }
    }

    /// Render the descriptive text of this error.
    pub fn message(&self) -> (r: String)
        ensures
            r@ == self.message_spec(),
    {
        let (prefix, detail): (&str, &String) = match self {
            TemplateError::NotFound(s) => ("Template not found: ", s),
            TemplateError::DuplicateName(s) => ("Template name already exists: ", s),
            TemplateError::InvalidCategory(s) => ("Invalid category: ", s),
            TemplateError::DatabaseError(s) => ("Database error: ", s),
            TemplateError::ValidationError(s) => ("Validation error: ", s),
            TemplateError::ImportError(s) => ("Import error: ", s),
            TemplateError::ExportError(s) => ("Export error: ", s),
        };
        let mut m = String::from_str(prefix);
        m.append(detail.as_str());
        m
    }
}

// ---------------------------------------------------------------------------
// Parameter substitution
// ---------------------------------------------------------------------------
/// Left-to-right, non-overlapping replacement of every occurrence of `pat`
/// by `val`.  An empty pattern replaces nothing.
pub open spec fn replace_all(s: Seq<char>, pat: Seq<char>, val: Seq<char>) -> Seq<char>
    decreases s.len(),
{
    if pat.len() == 0 || s.len() < pat.len() {
        s
    } else if s.subrange(0, pat.len() as int) == pat {
        val + replace_all(s.skip(pat.len() as int), pat, val)
    } else {
        seq![s[0]] + replace_all(s.skip(1), pat, val)
    }
}

/// The placeholder text of a parameter name: the name in double braces.
pub open spec fn placeholder_of(name: Seq<char>) -> Seq<char> {
    "{{"@ + name + "}}"@
}

/// A parameter value acceptable for substitution: bounded, without quote,
/// semicolon, backslash or null characters, and without stray control
/// characters.
pub open spec fn param_value_ok(v: Seq<char>) -> bool {
    &&& v.len() <= 1000
    &&& forall|i: int|
        0 <= i < v.len() ==> !((#[trigger] v[i]) == '\u{27}' || v[i] == '"' || v[i] == ';'
            || v[i] == '\\' || v[i] == '\u{0}')
    &&& forall|i: int| 0 <= i < v.len() ==> !crate::security::bad_control(#[trigger] v[i])
}

/// Whether a substitution value passes the character-level screen.
pub fn check_param_value(v: &str) -> (r: bool)
    ensures
        r == param_value_ok(v@),
{
    let n = v.unicode_len();
    if n > 1000 {
        return false;
    }
    let mut i: usize = 0;
    while i < n
        invariant
            n == v@.len(),
            i <= n,
            forall|j: int|
                0 <= j < i ==> !((#[trigger] v@[j]) == '\u{27}' || v@[j] == '"' || v@[j] == ';'
                    || v@[j] == '\\' || v@[j] == '\u{0}'),
            forall|j: int| 0 <= j < i ==> !crate::security::bad_control(#[trigger] v@[j]),
        decreases n - i,
    {
        let c = v.get_char(i);
        let code = c as u32;
        if c == '\'' || c == '"' || c == ';' || c == '\\' || c == '\0' {
            return false;
        }
        if (code < 32 || (127 <= code && code < 160)) && c != '\t' && c != '\n' && c != '\r' {
            return false;
        }
        i = i + 1;
    }
    true
}

/// Whether `pat` stands in `s` at position `i`.
fn match_at(s: &str, i: usize, pat: &str) -> (r: bool)
    requires
        i <= s@.len(),
    ensures
        r == (i + pat@.len() <= s@.len() && s@.subrange(i as int, i as int + pat@.len()) == pat@),
{
    let n = s.unicode_len();
    let m = pat.unicode_len();
    if m > n - i {
        return false;
    }
    let mut j: usize = 0;
    while j < m
        invariant
            n == s@.len(),
            m == pat@.len(),
            i + m <= n,
            j <= m,
            forall|k: int| 0 <= k < j ==> s@[i + k] == pat@[k],
        decreases m - j,
    {
        if s.get_char(i + j) != pat.get_char(j) {
            proof {
                assert(s@.subrange(i as int, i as int + m as int)[j as int] == s@[i + j]);
            }
            return false;
        }
        j = j + 1;
    }
    proof {
        assert(s@.subrange(i as int, i as int + m as int) =~= pat@);
    }
    true
}

/// Replace every occurrence of `pat` in `s` by `val`, left to right,
/// without rescanning substituted text.
pub fn replace_all_occurrences(s: &str, pat: &str, val: &str) -> (r: String)
    ensures
        r@ == replace_all(s@, pat@, val@),
{
    let n = s.unicode_len();
    let m = pat.unicode_len();
    if m == 0 {
        let r = String::from_str(s);
        return r;
    }
    let mut out = String::new();
    let mut i: usize = 0;
    proof {
        assert(s@.skip(0) =~= s@);
        assert(Seq::<char>::empty() + replace_all(s@, pat@, val@) =~= replace_all(
            s@,
            pat@,
            val@,
        ));
    }
    while i < n
        invariant
            n == s@.len(),
            m == pat@.len(),
            m >= 1,
            i <= n,
            replace_all(s@, pat@, val@) == out@ + replace_all(s@.skip(i as int), pat@, val@),
        decreases n - i,
    {
        let ghost rest = s@.skip(i as int);
        if match_at(s, i, pat) {
            proof {
                assert(rest.subrange(0, m as int) =~= s@.subrange(i as int, i as int + m as int));
                assert(rest.skip(m as int) =~= s@.skip(i as int + m as int));
                assert(replace_all(rest, pat@, val@) == val@ + replace_all(
                    s@.skip(i as int + m as int),
                    pat@,
                    val@,
                ));
            }
            out.append(val);
            i = i + m;
        } else {
            let c = s.get_char(i);
            proof {
                assert(rest[0] == c);
                assert(rest.skip(1) =~= s@.skip(i as int + 1));
                if rest.len() >= m {
                    assert(rest.subrange(0, m as int) =~= s@.subrange(
                        i as int,
                        i as int + m as int,
                    ));
                    assert(replace_all(rest, pat@, val@) == seq![c] + replace_all(
                        s@.skip(i as int + 1),
                        pat@,
                        val@,
                    ));
                } else {
                    assert(replace_all(rest, pat@, val@) == rest);
                    assert(replace_all(s@.skip(i as int + 1), pat@, val@) == s@.skip(
                        i as int + 1,
                    ));
                    assert(rest =~= seq![c] + s@.skip(i as int + 1));
                }
                assert(out@.push(c) + replace_all(s@.skip(i as int + 1), pat@, val@) =~= out@
                    + replace_all(rest, pat@, val@));
            }
            push_char(&mut out, c);
            i = i + 1;
        }
    }
    proof {
        assert(s@.skip(n as int) =~= Seq::<char>::empty());
        assert(out@ + Seq::<char>::empty() =~= out@);
    }
    out
}

/// Build the placeholder text of a parameter name.
pub fn render_placeholder(name: &str) -> (r: String)
    ensures
        r@ == placeholder_of(name@),
{
    let mut out = String::from_str("{{");
    out.append(name);
    out.append("}}");
    out
}

/// The parameter models of a template: name and default, per parameter.
pub open spec fn param_models(ps: Seq<TemplateParameter>) -> Seq<(Seq<char>, Option<Seq<char>>)> {
    Seq::new(
        ps.len(),
        |i: int|
            (
                ps[i].name@,
                match ps[i].default_value {
                    Some(d) => Some(d@),
                    None => None,
                },
            ),
    )
}

/// The substitution models: name and value, per supplied substitution.
pub open spec fn sub_models(ss: Seq<ParameterSubstitution>) -> Seq<(Seq<char>, Seq<char>)> {
    Seq::new(ss.len(), |i: int| (ss[i].parameter_name@, ss[i].value@))
}

/// The value supplied for a parameter name: that of the first substitution
/// under the name, if any.
pub open spec fn supplied_value(subs: Seq<(Seq<char>, Seq<char>)>, name: Seq<char>) -> Option<
    Seq<char>,
>
    decreases subs.len(),
{
    if subs.len() == 0 {
        None
    } else if subs[0].0 == name {
        Some(subs[0].1)
    } else {
        supplied_value(subs.skip(1), name)
    }
}

/// The value a parameter receives: the supplied value, else its default.
pub open spec fn chosen_value(
    p: (Seq<char>, Option<Seq<char>>),
    subs: Seq<(Seq<char>, Seq<char>)>,
) -> Option<Seq<char>> {
    match supplied_value(subs, p.0) {
        Some(v) => Some(v),
        None => p.1,
    }
}

/// The content after substituting every parameter, in declaration order; a
/// parameter with no value leaves the content as it stands.
pub open spec fn substituted(
    content: Seq<char>,
    params: Seq<(Seq<char>, Option<Seq<char>>)>,
    subs: Seq<(Seq<char>, Seq<char>)>,
) -> Seq<char>
    decreases params.len(),
{
    if params.len() == 0 {
        content
    } else {
        substituted(
            match chosen_value(params[0], subs) {
                Some(v) => replace_all(content, placeholder_of(params[0].0), v),
                None => content,
            },
            params.skip(1),
            subs,
        )
    }
}

/// The substitutions applied, in declaration order.
pub open spec fn applied_of(
    params: Seq<(Seq<char>, Option<Seq<char>>)>,
    subs: Seq<(Seq<char>, Seq<char>)>,
) -> Seq<(Seq<char>, Seq<char>)>
    decreases params.len(),
{
    if params.len() == 0 {
        Seq::empty()
    } else {
        (match chosen_value(params[0], subs) {
            Some(v) => seq![(params[0].0, v)],
            None => Seq::empty(),
        }) + applied_of(params.skip(1), subs)
    }
}

/// The names of the parameters with neither a value nor a default, in
/// declaration order.
pub open spec fn missing_of(
    params: Seq<(Seq<char>, Option<Seq<char>>)>,
    subs: Seq<(Seq<char>, Seq<char>)>,
) -> Seq<Seq<char>>
    decreases params.len(),
{
    if params.len() == 0 {
        Seq::empty()
    } else {
        (match chosen_value(params[0], subs) {
            Some(_) => Seq::empty(),
            None => seq![params[0].0],
        }) + missing_of(params.skip(1), subs)
    }
}

/// Some parameter's chosen value fails the character-level screen.
pub open spec fn some_value_unsafe(
    params: Seq<(Seq<char>, Option<Seq<char>>)>,
    subs: Seq<(Seq<char>, Seq<char>)>,
) -> bool {
    exists|i: int|
        0 <= i < params.len() && (match #[trigger] chosen_value(params[i], subs) {
            Some(v) => !param_value_ok(v),
            None => false,
        })
}

/// Substitute a template's parameters into its content.  Each declared
/// parameter takes the supplied value if one passes the character-level
/// screen, else its default if that passes; a parameter with neither is
/// reported missing.  Substitutions apply in declaration order.  Returns
/// `Err` exactly when some supplied or needed default value fails the
/// screen.
pub fn process_template_content(
    content: &str,
    parameters: &Vec<TemplateParameter>,
    substitutions: &Vec<ParameterSubstitution>,
) -> (r: Result<ProcessedTemplate, String>)
    ensures
        r is Ok <==> !some_value_unsafe(param_models(parameters@), sub_models(substitutions@)),
        match r {
            Ok(p) => {
                let pm = param_models(parameters@);
                let sm = sub_models(substitutions@);
                &&& p.original_content@ == content@
                &&& p.processed_content@ == substituted(content@, pm, sm)
                &&& sub_models(p.substitutions@) == applied_of(pm, sm)
                &&& Seq::new(p.missing_parameters@.len(), |i: int| p.missing_parameters@[i]@)
                    == missing_of(pm, sm)
            },
            Err(m) => m@
                == "Parameter value contains characters that are not allowed for security reasons"@,
        },
{
    let ghost pm = param_models(parameters@);
    let ghost sm = sub_models(substitutions@);
    let mut processed = String::from_str(content);
    let mut applied: Vec<ParameterSubstitution> = Vec::new();
    let mut missing: Vec<String> = Vec::new();
    let n = parameters.len();
    let mut i: usize = 0;
    proof {
        assert(pm.skip(0) =~= pm);
        assert(sub_models(applied@) =~= Seq::<(Seq<char>, Seq<char>)>::empty());
        assert(Seq::new(missing@.len(), |j: int| missing@[j]@) =~= Seq::<Seq<char>>::empty());
    }
    while i < n
        invariant
            pm == param_models(parameters@),
            sm == sub_models(substitutions@),
            n == parameters@.len(),
            i <= n,
            substituted(content@, pm, sm) == substituted(processed@, pm.skip(i as int), sm),
            applied_of(pm, sm) == sub_models(applied@) + applied_of(pm.skip(i as int), sm),
            missing_of(pm, sm) == Seq::new(missing@.len(), |j: int| missing@[j]@) + missing_of(
                pm.skip(i as int),
                sm,
            ),
            forall|j: int|
                0 <= j < i ==> (match #[trigger] chosen_value(pm[j], sm) {
                    Some(v) => param_value_ok(v),
                    None => true,
                }),
        decreases n - i,
    {
        let ghost rest = pm.skip(i as int);
        proof {
            assert(rest[0] == pm[i as int]);
            assert(rest.skip(1) =~= pm.skip(i as int + 1));
            assert(pm[i as int].0 == parameters@[i as int].name@);
        }
        let param = &parameters[i];
        let supplied = find_substitution(substitutions, param.name.as_str());
        proof {
            match supplied {
                Some(ref v) => {
                    assert(chosen_value(pm[i as int], sm) == Some(v@));
                },
                None => {
                    assert(chosen_value(pm[i as int], sm) == pm[i as int].1);
                },
            }
        }
        match supplied {
            Some(value) => {
                if !check_param_value(value.as_str()) {
                    return Err(String::from_str(
                        "Parameter value contains characters that are not allowed for security reasons",
                    ));
                }
                let pat = render_placeholder(param.name.as_str());
                let ghost before = processed@;
                processed = replace_all_occurrences(
                    processed.as_str(),
                    pat.as_str(),
                    value.as_str(),
                );
                proof {
                    assert(substituted(before, rest, sm) == substituted(
                        processed@,
                        pm.skip(i as int + 1),
                        sm,
                    ));
                }
                let ghost applied0 = applied@;
                applied.push(
                    ParameterSubstitution { parameter_name: param.name.clone(), value },
                );
                proof {
                    assert(applied@.drop_last() =~= applied0);
                    lemma_step_applied(pm, sm, i as int, applied@, missing@);
                }
            },
            None => {
                match &param.default_value {
                    Some(default_value) => {
                        proof {
                            assert(pm[i as int].1 == Some(default_value@));
                        }
                        if !check_param_value(default_value.as_str()) {
                            return Err(String::from_str(
                                "Parameter value contains characters that are not allowed for security reasons",
                            ));
                        }
                        let pat = render_placeholder(param.name.as_str());
                        let ghost before = processed@;
                        processed = replace_all_occurrences(
                            processed.as_str(),
                            pat.as_str(),
                            default_value.as_str(),
                        );
                        proof {
                            assert(substituted(before, rest, sm) == substituted(
                                processed@,
                                pm.skip(i as int + 1),
                                sm,
                            ));
                        }
                        let ghost applied0 = applied@;
                        applied.push(
                            ParameterSubstitution {
                                parameter_name: param.name.clone(),
                                value: default_value.clone(),
                            },
                        );
                        proof {
                            assert(applied@.drop_last() =~= applied0);
                            lemma_step_applied(pm, sm, i as int, applied@, missing@);
                        }
                    },
                    None => {
                        proof {
                            assert(pm[i as int].1 is None);
                        }
                        let ghost missing0 = missing@;
                        missing.push(param.name.clone());
                        proof {
                            assert(Seq::new(
                                (missing@.len() - 1) as nat,
                                |j: int| missing@[j]@,
                            ) =~= Seq::new(missing0.len(), |j: int| missing0[j]@));
                            lemma_step_missing(pm, sm, i as int, applied@, missing@);
                        }
                    },
                }
            },
        }
        i = i + 1;
    }
    proof {
        assert(pm.skip(n as int) =~= Seq::<(Seq<char>, Option<Seq<char>>)>::empty());
        assert(sub_models(applied@) + Seq::<(Seq<char>, Seq<char>)>::empty() =~= sub_models(
            applied@,
        ));
        assert(Seq::new(missing@.len(), |j: int| missing@[j]@) + Seq::<Seq<char>>::empty()
            =~= Seq::new(missing@.len(), |j: int| missing@[j]@));
        if some_value_unsafe(pm, sm) {
            let w = choose|k: int|
                0 <= k < pm.len() && (match #[trigger] chosen_value(pm[k], sm) {
                    Some(v) => !param_value_ok(v),
                    None => false,
                });
        }
    }
    Ok(
        ProcessedTemplate {
            original_content: String::from_str(content),
            processed_content: processed,
            substitutions: applied,
            missing_parameters: missing,
        },
    )
}

/// Look a supplied substitution up by parameter name: exactly the first
/// match's value.
fn find_substitution(substitutions: &Vec<ParameterSubstitution>, name: &str) -> (r: Option<
    String,
>)
    ensures
        match r {
            Some(v) => supplied_value(sub_models(substitutions@), name@) == Some(v@),
            None => supplied_value(sub_models(substitutions@), name@) is None,
        },
{
    let ghost sm = sub_models(substitutions@);
    let n = substitutions.len();
    let mut i: usize = 0;
    proof {
        assert(sm.skip(0) =~= sm);
    }
    while i < n
        invariant
            sm == sub_models(substitutions@),
            n == substitutions@.len(),
            i <= n,
            supplied_value(sm, name@) == supplied_value(sm.skip(i as int), name@),
        decreases n - i,
    {
        proof {
            assert(sm.skip(i as int)[0] == sm[i as int]);
            assert(sm.skip(i as int).skip(1) =~= sm.skip(i as int + 1));
            assert(sm[i as int].0 == substitutions@[i as int].parameter_name@);
        }
        if names_equal(substitutions[i].parameter_name.as_str(), name) {
            return Some(substitutions[i].value.clone());
        }
        i = i + 1;
    }
    proof {
        assert(sm.skip(n as int) =~= Seq::<(Seq<char>, Seq<char>)>::empty());
    }
    None
}

/// One substitution step extends the applied list and leaves the missing
/// list as it stands; the loop's bookkeeping follows.
proof fn lemma_step_applied(
    pm: Seq<(Seq<char>, Option<Seq<char>>)>,
    sm: Seq<(Seq<char>, Seq<char>)>,
    i: int,
    applied: Seq<ParameterSubstitution>,
    missing: Seq<String>,
)
    requires
        0 <= i < pm.len(),
        applied.len() > 0,
        chosen_value(pm[i], sm) == Some(applied.last().value@),
        applied.last().parameter_name@ == pm[i].0,
        applied_of(pm, sm) == sub_models(applied.drop_last()) + applied_of(pm.skip(i), sm),
        missing_of(pm, sm) == Seq::new(missing.len(), |j: int| missing[j]@) + missing_of(
            pm.skip(i),
            sm,
        ),
    ensures
        applied_of(pm, sm) == sub_models(applied) + applied_of(pm.skip(i + 1), sm),
        missing_of(pm, sm) == Seq::new(missing.len(), |j: int| missing[j]@) + missing_of(
            pm.skip(i + 1),
            sm,
        ),
{
    let rest = pm.skip(i);
    assert(rest[0] == pm[i]);
    assert(rest.skip(1) =~= pm.skip(i + 1));
    assert(applied_of(rest, sm) == seq![(pm[i].0, applied.last().value@)] + applied_of(
        pm.skip(i + 1),
        sm,
    ));
    assert(sub_models(applied) =~= sub_models(applied.drop_last()).push(
        (applied.last().parameter_name@, applied.last().value@),
    ));
    assert(sub_models(applied.drop_last()) + (seq![(pm[i].0, applied.last().value@)]
        + applied_of(pm.skip(i + 1), sm)) =~= sub_models(applied) + applied_of(
        pm.skip(i + 1),
        sm,
    ));
    assert(missing_of(rest, sm) =~= missing_of(pm.skip(i + 1), sm));
}

/// A parameter with neither value nor default extends the missing list and
/// leaves the applied list as it stands.
proof fn lemma_step_missing(
    pm: Seq<(Seq<char>, Option<Seq<char>>)>,
    sm: Seq<(Seq<char>, Seq<char>)>,
    i: int,
    applied: Seq<ParameterSubstitution>,
    missing: Seq<String>,
)
    requires
        0 <= i < pm.len(),
        missing.len() > 0,
        chosen_value(pm[i], sm) is None,
        missing.last()@ == pm[i].0,
        applied_of(pm, sm) == sub_models(applied) + applied_of(pm.skip(i), sm),
        missing_of(pm, sm) == Seq::new((missing.len() - 1) as nat, |j: int| missing[j]@)
            + missing_of(pm.skip(i), sm),
    ensures
        applied_of(pm, sm) == sub_models(applied) + applied_of(pm.skip(i + 1), sm),
        missing_of(pm, sm) == Seq::new(missing.len(), |j: int| missing[j]@) + missing_of(
            pm.skip(i + 1),
            sm,
        ),
{
    let rest = pm.skip(i);
    assert(rest[0] == pm[i]);
    assert(rest.skip(1) =~= pm.skip(i + 1));
    assert(missing_of(rest, sm) == seq![pm[i].0] + missing_of(pm.skip(i + 1), sm));
    assert(Seq::new(missing.len(), |j: int| missing[j]@) =~= Seq::new(
        (missing.len() - 1) as nat,
        |j: int| missing[j]@,
    ).push(missing.last()@));
    assert(Seq::new((missing.len() - 1) as nat, |j: int| missing[j]@) + (seq![pm[i].0] + missing_of(
        pm.skip(i + 1),
        sm,
    )) =~= Seq::new(missing.len(), |j: int| missing[j]@) + missing_of(pm.skip(i + 1), sm));
    assert(applied_of(rest, sm) =~= applied_of(pm.skip(i + 1), sm));
}

/// Whether two strings are equal.
fn names_equal(a: &str, b: &str) -> (r: bool)
    ensures
        r == (a@ == b@),
{
    let na = a.unicode_len();
    let nb = b.unicode_len();
    if na != nb {
        proof {
            assert(a@ != b@);
        }
        return false;
    }
    let mut i: usize = 0;
    while i < na
        invariant
            na == a@.len(),
            na == b@.len(),
            i <= na,
            forall|j: int| 0 <= j < i ==> a@[j] == b@[j],
        decreases na - i,
    {
        if a.get_char(i) != b.get_char(i) {
            return false;
        }
        i = i + 1;
    }
    proof {
        assert(a@ =~= b@);
    }
    true
}

} // verus!
