//! Loading of policies and of the schema, from the first source there is.

use vstd::prelude::*;
use vstd::string::*;

use crate::governance::engine::opt_slice;
use crate::time::Timestamp;

verus! {

/// Default policies for development: they permit every action.
pub const DEFAULT_POLICIES: &'static str = "// Default policies for development: every action is permitted.
// Do not use them in production.

permit(
    principal,
    action == ThoughtGate::Action::\"Forward\",
    resource
);

permit(
    principal,
    action == ThoughtGate::Action::\"Approve\",
    resource
);
";

/// Schema of the policies.
pub const DEFAULT_SCHEMA: &'static str = "namespace ThoughtGate {
    entity Role;
    entity App in [Role] {
        name: String,
        namespace: String,
        service_account: String,
    };
    entity ToolCall {
        name: String,
        server: String,
    };
    entity McpMethod {
        method: String,
        server: String,
    };
    action \"Forward\", \"Approve\" appliesTo {
        principal: [App],
        resource: [ToolCall, McpMethod],
    };
}
";

/// A file that was looked for. `T` holds a text.
#[derive(Debug)]
pub struct ReadFile<T = String> {
    /// Path of the file.
    pub path: T,
    /// Whether it exists.
    pub exists: bool,
    /// What it holds, or why it cannot be read.
    pub content: Result<T, T>,
}

/// Where policies were loaded from. `T` holds a text.
#[derive(Debug, Clone, PartialEq, Eq)]
pub enum PolicySource<T = String> {
    /// A file.
    ConfigMap { path: T, loaded_at: Timestamp },
    /// An environment variable.
    Environment { loaded_at: Timestamp },
    /// The default policies.
    Embedded,
}

/// Why policies cannot be loaded. `T` holds a text.
#[derive(Debug, Clone, PartialEq, Eq)]
pub enum PolicyError<T = String> {
    /// A file exists but cannot be read.
    PolicyLoadError { path: T, reason: T },
}

/// A file with its strings taken as character sequences.
pub type FileView = ReadFile<Seq<char>>;

/// Policies with their source, or why they cannot be loaded.
pub type Loaded = Result<(Seq<char>, PolicySource<Seq<char>>), PolicyError<Seq<char>>>;

impl ReadFile {
    /// The file with its strings taken as character sequences.
    pub open spec fn view(self) -> FileView {
        ReadFile {
            path: self.path@,
            exists: self.exists,
            content: match self.content {
                Ok(t) => Ok(t@),
                Err(e) => Err(e@),
            },
        }
    }
}

impl PolicySource {
    /// The source with its string taken as a character sequence.
    pub open spec fn view(self) -> PolicySource<Seq<char>> {
        match self {
            PolicySource::ConfigMap { path, loaded_at } => PolicySource::ConfigMap {
                path: path@,
                loaded_at,
            },
            PolicySource::Environment { loaded_at } => PolicySource::Environment { loaded_at },
            PolicySource::Embedded => PolicySource::Embedded,
        }
    }
}

impl PolicyError {
    /// The error with its strings taken as character sequences.
    pub open spec fn view(self) -> PolicyError<Seq<char>> {
        match self {
            PolicyError::PolicyLoadError { path, reason } => PolicyError::PolicyLoadError {
                path: path@,
                reason: reason@,
            },
        }
    }
}

/// The view of loaded policies.
pub open spec fn loaded_view(r: Result<(String, PolicySource), PolicyError>) -> Loaded {
    match r {
        Ok((text, source)) => Ok((text@, source@)),
        Err(e) => Err(e@),
    }
}

/// The view of a loaded schema.
pub open spec fn schema_view(r: Result<String, PolicyError>) -> Result<
    Seq<char>,
    PolicyError<Seq<char>>,
> {
    match r {
        Ok(text) => Ok(text@),
        Err(e) => Err(e@),
    }
}

/// The views of a list of files.
pub open spec fn file_views(files: Seq<ReadFile>) -> Seq<FileView> {
    Seq::new(files.len(), |i: int| files[i]@)
}

/// What a file holds, or the error that it cannot be read.
pub open spec fn text_in(file: FileView) -> Result<Seq<char>, PolicyError<Seq<char>>> {
    match file.content {
        Ok(text) => Ok(text),
        Err(reason) => Err(PolicyError::PolicyLoadError { path: file.path, reason }),
    }
}

/// The texts of the files that exist, one after the other, with a line break
/// before each that does not come first; the error of the first that exists and
/// cannot be read.
pub open spec fn all_text(files: Seq<FileView>) -> Result<Seq<char>, PolicyError<Seq<char>>>
    decreases files.len(),
{
    if files.len() == 0 {
        Ok(Seq::empty())
    } else {
        match all_text(files.drop_last()) {
            Err(e) => Err(e),
            Ok(before) => if !files.last().exists {
                Ok(before)
            } else {
                match text_in(files.last()) {
                    Err(e) => Err(e),
                    Ok(text) => if before.len() > 0 {
                        Ok(before + "\n"@ + text)
                    } else {
                        Ok(text)
                    },
                }
            },
        }
    }
}

/// The policies: those in the policy file if it exists, else those in the
/// environment variable, else those in the configured files, else the default
/// ones. A file that exists and cannot be read is an error, never a reason to go
/// on; one that does not exist is passed over.
pub open spec fn policies_from(
    policy_file: FileView,
    variable: Option<Seq<char>>,
    configured: Seq<FileView>,
    now: Timestamp,
) -> Loaded {
    if policy_file.exists {
        match text_in(policy_file) {
            Ok(text) => Ok(
                (text, PolicySource::ConfigMap { path: policy_file.path, loaded_at: now }),
            ),
            Err(e) => Err(e),
        }
    } else if variable is Some {
        Ok((variable->0, PolicySource::Environment { loaded_at: now }))
    } else {
        match all_text(configured) {
            Err(e) => Err(e),
            Ok(text) => if text.len() > 0 {
                Ok((text, PolicySource::ConfigMap { path: configured[0].path, loaded_at: now }))
            } else {
                Ok((DEFAULT_POLICIES@, PolicySource::Embedded))
            },
        }
    }
}

/// The schema: that in the schema file if it exists, else that in the configured
/// file if it exists, else the default one.
pub open spec fn schema_from(schema_file: FileView, configured: Option<FileView>) -> Result<
    Seq<char>,
    PolicyError<Seq<char>>,
> {
    if schema_file.exists {
        text_in(schema_file)
    } else {
        match configured {
            Some(file) => if file.exists {
                text_in(file)
            } else {
                Ok(DEFAULT_SCHEMA@)
            },
            None => Ok(DEFAULT_SCHEMA@),
        }
    }
}

/// The path of the policy file, for the value of `THOUGHTGATE_POLICY_FILE`.
pub fn policy_file_path(variable: Option<&str>) -> (r: String)
    ensures
        r@ == match variable {
            Some(path) => path@,
            None => "/etc/thoughtgate/policies.cedar"@,
        },
{
    match variable {
        Some(path) => path.to_owned(),
        None => "/etc/thoughtgate/policies.cedar".to_owned(),
    }
}

/// The path of the schema file, for the value of `THOUGHTGATE_SCHEMA_FILE`.
pub fn schema_file_path(variable: Option<&str>) -> (r: String)
    ensures
        r@ == match variable {
            Some(path) => path@,
            None => "/etc/thoughtgate/schema.cedarschema"@,
        },
{
    match variable {
        Some(path) => path.to_owned(),
        None => "/etc/thoughtgate/schema.cedarschema".to_owned(),
    }
}

/// The default policies.
pub fn embedded_default_policies() -> (r: String)
    ensures
        r@ == DEFAULT_POLICIES@,
{
    DEFAULT_POLICIES.to_owned()
}

/// The default schema.
pub fn embedded_schema() -> (r: String)
    ensures
        r@ == DEFAULT_SCHEMA@,
{
    DEFAULT_SCHEMA.to_owned()
}

fn read(file: &ReadFile) -> (r: Result<String, PolicyError>)
    ensures
        schema_view(r) == text_in(file@),
{
    match &file.content {
        Ok(text) => Ok(text.clone()),
        Err(reason) => Err(
            PolicyError::PolicyLoadError { path: file.path.clone(), reason: reason.clone() },
        ),
    }
}

fn read_all(files: &Vec<ReadFile>) -> (r: Result<String, PolicyError>)
    ensures
        schema_view(r) == all_text(file_views(files@)),
{
    let ghost all = file_views(files@);
    let mut combined = "".to_owned();
    proof {
        reveal_strlit("");
        assert(combined@ =~= Seq::<char>::empty());
    }
    let mut i: usize = 0;
    while i < files.len()
        invariant
            i <= files@.len(),
            all == file_views(files@),
            all_text(all.take(i as int)) == Ok::<Seq<char>, PolicyError<Seq<char>>>(combined@),
        decreases files@.len() - i,
    {
        proof {
            assert(all.take(i + 1).drop_last() =~= all.take(i as int));
            assert(all.take(i + 1).last() == files@[i as int]@);
        }
        if files[i].exists {
            match read(&files[i]) {
                Ok(text) => {
                    if combined.as_str().is_empty() {
                        combined = text;
                    } else {
                        combined = combined.concat("\n").concat(text.as_str());
                    }
                },
                Err(e) => {
                    proof {
                        lemma_error_stays(all, i + 1);
                    }
                    return Err(e);
                },
            }
        }
        i = i + 1;
    }
    assert(all.take(i as int) =~= all);
    Ok(combined)
}

/// The error of a beginning of a list of files is that of the whole.
proof fn lemma_error_stays(files: Seq<FileView>, n: int)
    requires
        0 <= n <= files.len(),
        all_text(files.take(n)) is Err,
    ensures
        all_text(files) == all_text(files.take(n)),
    decreases files.len() - n,
{
    if n == files.len() {
        assert(files.take(n) =~= files);
    } else {
        assert(files.take(n + 1).drop_last() =~= files.take(n));
        lemma_error_stays(files, n + 1);
    }
}

/// Loads the policies; `variable` is the value of `THOUGHTGATE_POLICIES`.
pub fn load_policies(policy_file: &ReadFile, variable: Option<&str>, now: Timestamp) -> (r: Result<
    (String, PolicySource),
    PolicyError,
>)
    ensures
        loaded_view(r) == policies_from(policy_file@, opt_slice(variable), Seq::empty(), now),
{
    let none: Vec<ReadFile> = Vec::new();
    assert(file_views(none@) =~= Seq::<FileView>::empty());
    load_policies_with_config(policy_file, variable, &none, now)
}

/// Loads the policies, with files that the configuration names.
pub fn load_policies_with_config(
    policy_file: &ReadFile,
    variable: Option<&str>,
    configured: &Vec<ReadFile>,
    now: Timestamp,
) -> (r: Result<(String, PolicySource), PolicyError>)
    ensures
        loaded_view(r) == policies_from(
            policy_file@,
            opt_slice(variable),
            file_views(configured@),
            now,
        ),
        policy_file.exists ==> match policy_file.content {
            Ok(held) => r is Ok && r->Ok_0.0@ == held@ && r->Ok_0.1 is ConfigMap
                && r->Ok_0.1->path@ == policy_file.path@,
            Err(_) => r is Err,
        },
        !policy_file.exists && variable is Some ==> r is Ok && r->Ok_0.0@ == variable->0@
            && r->Ok_0.1 is Environment,
{
    if policy_file.exists {
        return match read(policy_file) {
            Ok(text) => Ok(
                (
                    text,
                    PolicySource::ConfigMap { path: policy_file.path.clone(), loaded_at: now },
                ),
            ),
            Err(e) => Err(e),
        };
    }
    if let Some(text) = variable {
        return Ok((text.to_owned(), PolicySource::Environment { loaded_at: now }));
    }
    match read_all(configured) {
        Err(e) => Err(e),
        Ok(text) => {
            if text.as_str().is_empty() {
                Ok((embedded_default_policies(), PolicySource::Embedded))
            } else {
                assert(configured@.len() > 0);
                let path = configured[0].path.clone();
                Ok((text, PolicySource::ConfigMap { path, loaded_at: now }))
            }
        },
    }
}

/// Loads the schema.
pub fn load_schema(schema_file: &ReadFile) -> (r: Result<String, PolicyError>)
    ensures
        schema_view(r) == schema_from(schema_file@, None),
{
    load_schema_with_config(schema_file, None)
}

/// Loads the schema, with a file that the configuration names.
pub fn load_schema_with_config(schema_file: &ReadFile, configured: Option<&ReadFile>) -> (r: Result<
    String,
    PolicyError,
>)
    ensures
        schema_view(r) == schema_from(
            schema_file@,
            match configured {
                Some(file) => Some(file@),
                None => None,
            },
        ),
{
    if schema_file.exists {
        return read(schema_file);
    }
    if let Some(file) = configured {
        if file.exists {
            return read(file);
        }
    }
    Ok(embedded_schema())
}

/// Loading fails closed: where a file that takes precedence exists but cannot be
/// read, or a configured file that is reached exists but cannot be read, the
/// default policies are never used.
pub proof fn law_loading_fails_closed(
    policy_file: FileView,
    variable: Option<Seq<char>>,
    configured: Seq<FileView>,
    now: Timestamp,
    i: int,
)
    ensures
        policy_file.exists && policy_file.content is Err ==> policies_from(
            policy_file,
            variable,
            configured,
            now,
        ) is Err,
        !policy_file.exists && variable is None && 0 <= i < configured.len()
            && configured[i].exists && configured[i].content is Err ==> policies_from(
            policy_file,
            variable,
            configured,
            now,
        ) is Err,
{
    if 0 <= i < configured.len() && configured[i].exists && configured[i].content is Err {
        assert(configured.take(i + 1).last() == configured[i]);
        lemma_error_stays(configured, i + 1);
    }
}

/// Where the policy file does not exist, the variable is not set and none of the
/// configured files exists, the default policies are used.
pub proof fn law_missing_files_are_passed_over(
    policy_file: FileView,
    configured: Seq<FileView>,
    now: Timestamp,
)
    requires
        !policy_file.exists,
        forall|i: int| 0 <= i < configured.len() ==> !(#[trigger] configured[i]).exists,
    ensures
        policies_from(policy_file, None, configured, now) == Ok::<
            (Seq<char>, PolicySource<Seq<char>>),
            PolicyError<Seq<char>>,
        >((DEFAULT_POLICIES@, PolicySource::Embedded)),
{
    lemma_no_text(configured);
}

/// Files that do not exist hold no text.
proof fn lemma_no_text(files: Seq<FileView>)
    requires
        forall|i: int| 0 <= i < files.len() ==> !(#[trigger] files[i]).exists,
    ensures
        all_text(files) == Ok::<Seq<char>, PolicyError<Seq<char>>>(Seq::empty()),
    decreases files.len(),
{
    if files.len() > 0 {
        assert forall|i: int| 0 <= i < files.drop_last().len() implies !(
        #[trigger] files.drop_last()[i]).exists by {
            assert(files.drop_last()[i] == files[i]);
        }
        lemma_no_text(files.drop_last());
    }
}

/// The default policies are used only if no other source is there.
pub proof fn law_default_policies_come_last(
    policy_file: FileView,
    variable: Option<Seq<char>>,
    configured: Seq<FileView>,
    now: Timestamp,
)
    ensures
        ({
            let r = policies_from(policy_file, variable, configured, now);
            r is Ok && r->Ok_0.1 is Embedded ==> !policy_file.exists && variable is None
                && all_text(configured) == Ok::<Seq<char>, PolicyError<Seq<char>>>(Seq::empty())
        }),
{
    let r = policies_from(policy_file, variable, configured, now);
    if r is Ok && r->Ok_0.1 is Embedded {
        assert(all_text(configured)->Ok_0 =~= Seq::<char>::empty());
    }
}

/// The policy file comes first: where it exists, the policies are exactly its text
/// and it is named as their source, whatever the variable and the configured files
/// hold; where it cannot be read, it is named in the error.
pub proof fn law_policy_file_comes_first(
    policy_file: FileView,
    variable: Option<Seq<char>>,
    configured: Seq<FileView>,
    now: Timestamp,
)
    requires
        policy_file.exists,
    ensures
        ({
            let loaded = policies_from(policy_file, variable, configured, now);
            match policy_file.content {
                Ok(text) => {
                    &&& loaded is Ok
                    &&& loaded->Ok_0.0 == text
                    &&& loaded->Ok_0.1 == (PolicySource::<Seq<char>>::ConfigMap {
                        path: policy_file.path,
                        loaded_at: now,
                    })
                },
                Err(reason) => {
                    &&& loaded is Err
                    &&& loaded->Err_0 == (PolicyError::<Seq<char>>::PolicyLoadError {
                        path: policy_file.path,
                        reason,
                    })
                },
            }
        }),
{
}

/// The variable comes second: where it is set and the policy file does not exist,
/// the policies are exactly its value, whatever the configured files hold.
pub proof fn law_variable_comes_second(
    policy_file: FileView,
    variable: Seq<char>,
    configured: Seq<FileView>,
    now: Timestamp,
)
    requires
        !policy_file.exists,
    ensures
        ({
            let loaded = policies_from(policy_file, Some(variable), configured, now);
            &&& loaded is Ok
            &&& loaded->Ok_0.0 == variable
            &&& loaded->Ok_0.1 == (PolicySource::<Seq<char>>::Environment { loaded_at: now })
        }),
{
}

/// The text of one configured file is what it holds, or nothing if it does not
/// exist.
pub proof fn law_text_of_one_file(file: FileView)
    ensures
        ({
            let text = all_text(seq![file]);
            &&& !file.exists ==> text is Ok && text->Ok_0.len() == 0
            &&& file.exists && file.content is Ok ==> text is Ok && text->Ok_0
                == file.content->Ok_0
            &&& file.exists && file.content is Err ==> text is Err && text->Err_0 == (
            PolicyError::<Seq<char>>::PolicyLoadError {
                path: file.path,
                reason: file.content->Err_0,
            })
        }),
{
    assert(seq![file].drop_last() =~= Seq::<FileView>::empty());
    assert(all_text(seq![file].drop_last()) == Ok::<Seq<char>, PolicyError<Seq<char>>>(
        Seq::empty(),
    ));
}

/// The text of two lists of files, one behind the other, is the text of the first
/// and that of the second with a line break between them, where neither is empty;
/// the error is that of the first list that has one. No file of the second list is
/// there and empty: such a file leaves nothing but a line break.
pub proof fn law_texts_follow_each_other(first: Seq<FileView>, second: Seq<FileView>)
    requires
        forall|i: int|
            0 <= i < second.len() && (#[trigger] second[i]).exists && second[i].content is Ok
                ==> second[i].content->Ok_0.len() > 0,
    ensures
        ({
            let whole = all_text(first + second);
            match (all_text(first), all_text(second)) {
                (Err(e), _) => whole is Err && whole->Err_0 == e,
                (Ok(_), Err(e)) => whole is Err && whole->Err_0 == e,
                (Ok(a), Ok(b)) => {
                    &&& whole is Ok
                    &&& a.len() == 0 ==> whole->Ok_0 == b
                    &&& a.len() > 0 && b.len() > 0 ==> whole->Ok_0 == a + "\n"@ + b
                    &&& b.len() == 0 ==> whole->Ok_0 == a
                },
            }
        }),
    decreases second.len(),
{
    if second.len() == 0 {
        assert(first + second =~= first);
        let whole = all_text(first);
        if whole is Ok && whole->Ok_0.len() == 0 {
            assert(whole->Ok_0 =~= Seq::<char>::empty());
        }
    } else {
        let rest = second.drop_last();
        let file = second.last();
        assert forall|i: int|
            0 <= i < rest.len() && (#[trigger] rest[i]).exists && rest[i].content
                is Ok implies rest[i].content->Ok_0.len() > 0 by {
            assert(rest[i] == second[i]);
        }
        assert(file == second[second.len() - 1]);
        law_texts_follow_each_other(first, rest);
        assert((first + second).drop_last() =~= first + rest);
        assert((first + second).last() == file);
        if let (Ok(a), Ok(b), Ok(before)) = (
            all_text(first),
            all_text(rest),
            all_text(first + rest),
        ) {
            if file.exists && file.content is Ok {
                let text = file.content->Ok_0;
                if a.len() == 0 {
                    assert(a =~= Seq::<char>::empty());
                }
                if b.len() == 0 {
                    assert(b =~= Seq::<char>::empty());
                }
                if a.len() > 0 && b.len() > 0 {
                    assert((a + "\n"@ + b) + "\n"@ + text =~= a + "\n"@ + (b + "\n"@ + text));
                }
            }
        }
    }
}

/// The configured files come third: where the policy file does not exist and the
/// variable is not set, the policies are the text of the configured files, and the
/// first of them is named as their source; where that text is empty, the default
/// policies are used.
pub proof fn law_configured_files_come_third(
    policy_file: FileView,
    configured: Seq<FileView>,
    now: Timestamp,
)
    requires
        !policy_file.exists,
    ensures
        ({
            let loaded = policies_from(policy_file, None, configured, now);
            match all_text(configured) {
                Err(e) => loaded is Err && loaded->Err_0 == e,
                Ok(text) => {
                    &&& loaded is Ok
                    &&& text.len() > 0 ==> loaded->Ok_0.0 == text && loaded->Ok_0.1 == (
                    PolicySource::<Seq<char>>::ConfigMap {
                        path: configured[0].path,
                        loaded_at: now,
                    })
                    &&& text.len() == 0 ==> loaded->Ok_0.1 is Embedded
                },
            }
        }),
{
}

/// The schema file comes first, the configured file second, and the default schema
/// last; a file that exists and cannot be read is an error that names it.
pub proof fn law_schema_file_comes_first(schema_file: FileView, configured: Option<FileView>)
    ensures
        ({
            let schema = schema_from(schema_file, configured);
            let used = if schema_file.exists {
                Some(schema_file)
            } else if configured is Some && configured->0.exists {
                configured
            } else {
                None
            };
            match used {
                Some(file) => match file.content {
                    Ok(text) => schema is Ok && schema->Ok_0 == text,
                    Err(reason) => schema is Err && schema->Err_0 == (
                    PolicyError::<Seq<char>>::PolicyLoadError { path: file.path, reason }),
                },
                None => schema is Ok && schema->Ok_0 == DEFAULT_SCHEMA@,
            }
        }),
{
}

} // verus!
