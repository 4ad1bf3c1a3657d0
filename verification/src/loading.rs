//! Loading service definitions from a directory tree: which directories are
//! walked, how each file's outcome is recorded, and the final verdict.

use vstd::prelude::*;
use crate::config::ServiceDefinition;
use crate::text::{concat2, concat3, decimal, has_prefix, starts_with, str_eq, usize_to_string};
use crate::validation::{ConfigError, LoadError, LoadErrorType};

verus! {

/// Directories not walked: hidden ones and common build or dependency
/// folders.
pub open spec fn skipped_directory(name: Seq<char>) -> bool {
    has_prefix(name, "."@) || name == "node_modules"@ || name == "target"@ || name == "dist"@ || name == "build"@
}

/// Whether a directory is left out of the walk.
pub fn is_skipped_directory(name: &str) -> (b: bool)
    ensures
        b == skipped_directory(name@),
{
    starts_with(name, ".") || str_eq(name, "node_modules") || str_eq(name, "target") || str_eq(name, "dist")
        || str_eq(name, "build")
}

/// No two services share a name.
pub open spec fn distinct_names(services: Seq<ServiceDefinition>) -> bool {
    forall|i: int, j: int| 0 <= i < j < services.len() ==> services[i].name@ != services[j].name@
}

/// Whether some service has the name.
pub open spec fn has_service_named(services: Seq<ServiceDefinition>, name: Seq<char>) -> bool {
    exists|i: int| 0 <= i < services.len() && services[i].name@ == name
}

fn find_service(services: &Vec<ServiceDefinition>, name: &str) -> (r: Option<usize>)
    ensures
        match r {
            Some(i) => i < services@.len() && services@[i as int].name@ == name@
                && forall|j: int| 0 <= j < i ==> services@[j].name@ != name@,
            None => !has_service_named(services@, name@),
        },
{
    let mut i: usize = 0;
    while i < services.len()
        invariant
            i <= services@.len(),
            forall|j: int| 0 <= j < i ==> services@[j].name@ != name@,
        decreases services@.len() - i,
    {
        if str_eq(services[i].name.as_str(), name) {
            return Some(i);
        }
        i = i + 1;
    }
    None
}

/// Adds a service unless one with its name is already there; tells whether
/// it was added.
pub fn add_service_if_new(services: &mut Vec<ServiceDefinition>, service: ServiceDefinition) -> (added: bool)
    ensures
        added == !has_service_named(old(services)@, service.name@),
        added ==> final(services)@ == old(services)@.push(service),
        !added ==> final(services)@ == old(services)@,
        distinct_names(old(services)@) ==> distinct_names(final(services)@),
{
    match find_service(services, service.name.as_str()) {
        Some(_) => false,
        None => {
            services.push(service);
            true
        },
    }
}

/// Services loaded from a directory tree, with the problems met and how
/// much was scanned.
#[derive(Debug)]
pub struct LoadResult {
    pub services: Vec<ServiceDefinition>,
    pub errors: Vec<LoadError>,
    pub files_scanned: usize,
    pub directories_scanned: usize,
}

/// The errors of one kind, in order.
pub open spec fn errors_of_type(es: Seq<LoadError>, t: LoadErrorType) -> Seq<LoadError>
    decreases es.len(),
{
    if es.len() == 0 {
        Seq::empty()
    } else if es.last().error_type == t {
        errors_of_type(es.drop_last(), t).push(es.last())
    } else {
        errors_of_type(es.drop_last(), t)
    }
}

/// The view of a load error: path, kind and message.
pub open spec fn load_error_view(e: LoadError) -> (Seq<char>, LoadErrorType, Seq<char>) {
    (e.file_path@, e.error_type, e.message@)
}

/// The views of load errors.
pub open spec fn load_errors_view(es: Seq<LoadError>) -> Seq<(Seq<char>, LoadErrorType, Seq<char>)> {
    es.map_values(|e: LoadError| load_error_view(e))
}

/// The message for a service whose name another file already took.
pub open spec fn duplicate_message(name: Seq<char>) -> Seq<char> {
    "Duplicate service name '"@ + name + "' (already defined in another file)"@
}

impl LoadResult {
    /// An empty result, before any scanning.
    pub fn new() -> (r: Self)
        ensures
            r.services@.len() == 0,
            r.errors@.len() == 0,
            r.files_scanned == 0,
            r.directories_scanned == 0,
    {
        LoadResult { services: Vec::new(), errors: Vec::new(), files_scanned: 0, directories_scanned: 0 }
    }

    /// Loading worked when some service was loaded.
    pub fn is_successful(&self) -> (b: bool)
        ensures
            b == (self.services@.len() > 0),
    {
        self.services.len() > 0
    }

    /// The first service with the name.
    pub fn get_service_by_name(&self, name: &str) -> (r: Option<&ServiceDefinition>)
        ensures
            match r {
                Some(s) => exists|i: int| 0 <= i < self.services@.len() && self.services@[i] == *s
                    && s.name@ == name@ && forall|j: int| 0 <= j < i ==> self.services@[j].name@ != name@,
                None => !has_service_named(self.services@, name@),
            },
    {
        match find_service(&self.services, name) {
            Some(i) => Some(&self.services[i]),
            None => None,
        }
    }

    /// The names of the services, in order.
    pub fn service_names(&self) -> (r: Vec<&str>)
        ensures
            r@.len() == self.services@.len(),
            forall|i: int| 0 <= i < r@.len() ==> #[trigger] r@[i]@ == self.services@[i].name@,
    {
        let mut r: Vec<&str> = Vec::new();
        let mut i: usize = 0;
        while i < self.services.len()
            invariant
                i <= self.services@.len(),
                r@.len() == i,
                forall|j: int| 0 <= j < i ==> #[trigger] r@[j]@ == self.services@[j].name@,
            decreases self.services@.len() - i,
        {
            r.push(self.services[i].name.as_str());
            i = i + 1;
        }
        r
    }

    /// The errors of one kind, in order.
    pub fn errors_by_type(&self, error_type: LoadErrorType) -> (r: Vec<&LoadError>)
        ensures
            r@.map_values(|e: &LoadError| *e) == errors_of_type(self.errors@, error_type),
    {
        let mut r: Vec<&LoadError> = Vec::new();
        let mut i: usize = 0;
        assert(r@.map_values(|e: &LoadError| *e) =~= errors_of_type(self.errors@.take(0), error_type));
        while i < self.errors.len()
            invariant
                i <= self.errors@.len(),
                r@.map_values(|e: &LoadError| *e) == errors_of_type(self.errors@.take(i as int), error_type),
            decreases self.errors@.len() - i,
        {
            proof {
                assert(self.errors@.take(i + 1).drop_last() =~= self.errors@.take(i as int));
            }
            let ghost before = r@;
            if self.errors[i].error_type == error_type {
                r.push(&self.errors[i]);
                assert(r@.map_values(|e: &LoadError| *e) =~= before.map_values(|e: &LoadError| *e).push(self.errors@[i as int]));
            }
            i = i + 1;
        }
        assert(self.errors@.take(self.errors@.len() as int) =~= self.errors@);
        r
    }

    /// Notes that one more directory was entered.
    pub fn record_directory(&mut self)
        requires
            old(self).directories_scanned < usize::MAX,
        ensures
            final(self).directories_scanned == old(self).directories_scanned + 1,
            final(self).files_scanned == old(self).files_scanned,
            final(self).services == old(self).services,
            final(self).errors == old(self).errors,
    {
        self.directories_scanned = self.directories_scanned + 1;
    }

    /// Records a subdirectory that could not be scanned.
    pub fn record_directory_error(&mut self, path: String, message: &str)
        ensures
            load_errors_view(final(self).errors@) == load_errors_view(old(self).errors@).push(
                (path@, LoadErrorType::DirectoryAccess, "Failed to scan directory: "@ + message@)),
            final(self).services == old(self).services,
            final(self).files_scanned == old(self).files_scanned,
            final(self).directories_scanned == old(self).directories_scanned,
    {
        let ghost before = self.errors@;
        self.errors.push(LoadError {
            file_path: path,
            error_type: LoadErrorType::DirectoryAccess,
            message: concat2("Failed to scan directory: ", message),
        });
        assert(load_errors_view(self.errors@) =~= load_errors_view(before).push(load_error_view(self.errors@.last())));
    }

    /// Records the outcome of loading one YAML file: the service, unless its
    /// name is taken (a duplicate-name error then), or the error the loading
    /// raised.
    pub fn record_file(&mut self, path: String, loaded: Result<ServiceDefinition, (LoadErrorType, String)>)
        requires
            old(self).files_scanned < usize::MAX,
        ensures
            final(self).files_scanned == old(self).files_scanned + 1,
            final(self).directories_scanned == old(self).directories_scanned,
            distinct_names(old(self).services@) ==> distinct_names(final(self).services@),
            match loaded {
                Ok(s) => if has_service_named(old(self).services@, s.name@) {
                    final(self).services@ == old(self).services@
                        && load_errors_view(final(self).errors@) == load_errors_view(old(self).errors@).push(
                            (path@, LoadErrorType::DuplicateName, duplicate_message(s.name@)))
                } else {
                    final(self).services@ == old(self).services@.push(s) && final(self).errors@ == old(self).errors@
                },
                Err((t, m)) => final(self).services@ == old(self).services@
                    && load_errors_view(final(self).errors@) == load_errors_view(old(self).errors@).push((path@, t, m@)),
            },
    {
        self.files_scanned = self.files_scanned + 1;
        let ghost before = self.errors@;
        match loaded {
            Ok(service) => {
                let message = concat3("Duplicate service name '", service.name.as_str(), "' (already defined in another file)");
                let added = add_service_if_new(&mut self.services, service);
                if !added {
                    self.errors.push(LoadError { file_path: path, error_type: LoadErrorType::DuplicateName, message });
                    assert(load_errors_view(self.errors@) =~= load_errors_view(before).push(load_error_view(self.errors@.last())));
                }
            },
            Err((t, m)) => {
                self.errors.push(LoadError { file_path: path, error_type: t, message: m });
                assert(load_errors_view(self.errors@) =~= load_errors_view(before).push(load_error_view(self.errors@.last())));
            },
        }
    }
}

/// The verdict on a finished scan: an error when no service was loaded
/// (saying how many errors were met when there were some), else the result.
pub open spec fn load_verdict_error(errors: nat, files: nat, dirs: nat) -> (Seq<char>, Seq<char>) {
    if errors > 0 {
        ("No valid service definitions found. "@ + decimal(errors) + " errors encountered while scanning "@
            + decimal(files) + " files in "@ + decimal(dirs) + " directories"@,
            "Fix the validation errors in existing YAML files or add new valid service definitions"@)
    } else {
        ("No service definitions found after scanning "@ + decimal(files) + " files in "@ + decimal(dirs)
            + " directories"@, "Add YAML files with service definitions to the services directory"@)
    }
}

/// Gives the result of a scan, or the error for a scan that loaded nothing.
pub fn finish_load(result: LoadResult) -> (r: Result<LoadResult, ConfigError>)
    ensures
        result.services@.len() > 0 ==> (r matches Ok(x) && x == result),
        result.services@.len() == 0 ==> (r matches Err(e) && e.suggestion matches Some(sg)
            && (e.message@, sg@) == load_verdict_error(result.errors@.len(), result.files_scanned as nat,
                result.directories_scanned as nat)),
{
    if result.services.len() > 0 {
        return Ok(result);
    }
    let files = usize_to_string(result.files_scanned);
    let dirs = usize_to_string(result.directories_scanned);
    if result.errors.len() > 0 {
        let count = usize_to_string(result.errors.len());
        let mut message = String::from_str("No valid service definitions found. ");
        message.append(count.as_str());
        message.append(" errors encountered while scanning ");
        message.append(files.as_str());
        message.append(" files in ");
        message.append(dirs.as_str());
        message.append(" directories");
        Err(ConfigError {
            message,
            suggestion: Some(String::from_str("Fix the validation errors in existing YAML files or add new valid service definitions")),
        })
    } else {
        let mut message = String::from_str("No service definitions found after scanning ");
        message.append(files.as_str());
        message.append(" files in ");
        message.append(dirs.as_str());
        message.append(" directories");
        Err(ConfigError {
            message,
            suggestion: Some(String::from_str("Add YAML files with service definitions to the services directory")),
        })
    }
}

/// The advice given when a load found no service.
pub open spec fn load_all_advice(had_errors: bool) -> Seq<char> {
    if had_errors {
        "Fix the validation errors in existing YAML files or add new valid service definitions"@
    } else {
        "Add YAML files with service definitions to the services directory"@
    }
}

/// The loaded services, or the error for a load that found none; its advice
/// depends on whether any file failed.
pub fn finish_load_all(services: Vec<ServiceDefinition>, had_errors: bool) -> (r: Result<Vec<ServiceDefinition>, ConfigError>)
    ensures
        services@.len() > 0 ==> (r matches Ok(x) && x == services),
        services@.len() == 0 ==> (r matches Err(e) && e.suggestion matches Some(sg)
            && e.message@ == "No valid service definitions found in services directory"@
            && sg@ == load_all_advice(had_errors)),
{
    if services.len() > 0 {
        return Ok(services);
    }
    let suggestion = if had_errors {
        String::from_str("Fix the validation errors in existing YAML files or add new valid service definitions")
    } else {
        String::from_str("Add YAML files with service definitions to the services directory")
    };
    Err(ConfigError { message: String::from_str("No valid service definitions found in services directory"), suggestion: Some(suggestion) })
}

} // verus!
