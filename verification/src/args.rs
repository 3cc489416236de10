//! Reading the command line into a configuration.
//!
//! Every parameter is required and is given as a flag, `--<name>`, followed by
//! its value. The first occurrence of a flag counts, wherever it stands in the
//! argument list, and the token after it is the value unless it reads as a flag
//! itself.

use vstd::prelude::*;
use vstd::std_specs::iter::IteratorSpec;
use vstd::string::*;

verus! {

/// The immutable configuration of a run.
#[derive(Clone, Debug, PartialEq, Eq)]
pub struct Parameters {
    /// The bucket that receives the uploads.
    pub s3_bucket: String,
    /// What is put in front of a file's name to make its key in the bucket.
    pub s3_path: String,
    /// The directory whose files are shipped.
    pub log_dir: String,
    /// The key the files are encrypted for.
    pub encrypt_key: String,
    /// The key the files are signed with.
    pub signing_key: String,
}

/// A configuration as plain text.
pub struct ParametersView {
    pub s3_bucket: Seq<char>,
    pub s3_path: Seq<char>,
    pub log_dir: Seq<char>,
    pub encrypt_key: Seq<char>,
    pub signing_key: Seq<char>,
}

impl View for Parameters {
    type V = ParametersView;

    open spec fn view(&self) -> ParametersView {
        ParametersView {
            s3_bucket: self.s3_bucket@,
            s3_path: self.s3_path@,
            log_dir: self.log_dir@,
            encrypt_key: self.encrypt_key@,
            signing_key: self.signing_key@,
        }
    }
}

impl ParametersView {
    /// The bucket name is what stood before the first separator of the storage
    /// path, so it holds no separator itself.
    pub open spec fn well_formed(self) -> bool {
        !self.s3_bucket.contains('/')
    }

    /// The storage path that splits into this bucket and prefix, written with a
    /// separator.
    pub open spec fn storage_path(self) -> Seq<char> {
        self.s3_bucket + seq!['/'] + self.s3_path
    }
}

/// Where `item` first occurs in `items`, or `items.len()` when it does not
/// occur at all.
pub open spec fn first_position<A>(items: Seq<A>, item: A) -> int
    decreases items.len(),
{
    if items.len() == 0 {
        0
    } else if items[0] == item {
        0
    } else {
        1 + first_position(items.drop_first(), item)
    }
}

/// The two characters that open every flag.
pub open spec fn flag_prefix() -> Seq<char> {
    seq!['-', '-']
}

/// The flag that introduces the parameter `name`.
pub open spec fn flag_of(name: Seq<char>) -> Seq<char> {
    flag_prefix() + name
}

/// Whether `token` reads as a flag rather than as a value.
pub open spec fn looks_like_flag(token: Seq<char>) -> bool {
    token.len() >= 2 && token[0] == '-' && token[1] == '-'
}

/// What is reported when `flag` is the last token or is followed by a flag.
pub open spec fn missing_value_message(flag: Seq<char>) -> Seq<char> {
    "Expected a value after argument '"@ + flag + "'"@
}

/// What is reported when the flag of `name` is nowhere in the argument list.
pub open spec fn required_message(name: Seq<char>) -> Seq<char> {
    "Error: "@ + name + " is required"@
}

/// What is reported when looking for a parameter's value failed with `detail`.
pub open spec fn malformed_message(detail: Seq<char>) -> Seq<char> {
    "Error: "@ + detail
}

/// The value given for `name` in `tokens`: `Ok(None)` when its flag is absent,
/// the token after the flag's first occurrence when that token is a value, and
/// an error when there is no such token or it reads as a flag.
pub open spec fn argv_string(tokens: Seq<Seq<char>>, name: Seq<char>) -> Result<
    Option<Seq<char>>,
    Seq<char>,
> {
    let flag = flag_of(name);
    let at = first_position(tokens, flag);
    if at >= tokens.len() {
        Ok(None)
    } else if at + 1 < tokens.len() && !looks_like_flag(tokens[at + 1]) {
        Ok(Some(tokens[at + 1]))
    } else {
        Err(missing_value_message(flag))
    }
}

/// The value of the required parameter `name`, or the message that says why
/// there is none.
pub open spec fn parameter(tokens: Seq<Seq<char>>, name: Seq<char>) -> Result<
    Seq<char>,
    Seq<char>,
> {
    match argv_string(tokens, name) {
        Ok(Some(value)) => Ok(value),
        Ok(None) => Err(required_message(name)),
        Err(detail) => Err(malformed_message(detail)),
    }
}

/// A storage path split at its first separator into bucket and prefix. Without
/// a separator the whole path is the bucket and the prefix is empty.
pub open spec fn split_path(path: Seq<char>) -> (Seq<char>, Seq<char>) {
    let at = first_position(path, '/');
    if at >= path.len() {
        (path, Seq::empty())
    } else {
        (path.subrange(0, at), path.subrange(at + 1, path.len() as int))
    }
}

/// The configuration that `tokens` describe, or the message of the first
/// parameter that cannot be read, taking the parameters in the order storage
/// path, log directory, encryption key, signing key.
pub open spec fn parameters(tokens: Seq<Seq<char>>) -> Result<ParametersView, Seq<char>> {
    match parameter(tokens, "s3-path"@) {
        Err(message) => Err(message),
        Ok(storage) => match parameter(tokens, "log-dir"@) {
            Err(message) => Err(message),
            Ok(log_dir) => match parameter(tokens, "encrypt-key"@) {
                Err(message) => Err(message),
                Ok(encrypt_key) => match parameter(tokens, "signing-key"@) {
                    Err(message) => Err(message),
                    Ok(signing_key) => Ok(
                        ParametersView {
                            s3_bucket: split_path(storage).0,
                            s3_path: split_path(storage).1,
                            log_dir,
                            encrypt_key,
                            signing_key,
                        },
                    ),
                },
            },
        },
    }
}

/// The usage banner: the command name with all four flags on one line, and the
/// message that says what was wrong on the next.
pub open spec fn usage_text(program: Seq<char>, message: Seq<char>) -> Seq<char> {
    "Usage: "@ + program
        + " --s3-path bucket/prefix --log-dir path --encrypt-key keyid --signing-key keyid\n"@
        + message + "\n"@
}

/// `first_position` is the one index that holds `item` with no `item` before
/// it, and the length when there is no `item`.
pub proof fn lemma_first_position<A>(items: Seq<A>, item: A, at: int)
    requires
        0 <= at <= items.len(),
        forall|j: int| 0 <= j < at ==> items[j] != item,
        at < items.len() ==> items[at] == item,
    ensures
        first_position(items, item) == at,
    decreases items.len(),
{
    if items.len() > 0 && at > 0 {
        let rest = items.drop_first();
        assert forall|j: int| 0 <= j < at - 1 implies rest[j] != item by {
            assert(rest[j] == items[j + 1]);
        }
        lemma_first_position(rest, item, at - 1);
    }
}

/// Nothing before `first_position` is `item`, and what stands there is.
pub proof fn lemma_first_position_bounds<A>(items: Seq<A>, item: A)
    ensures
        0 <= first_position(items, item) <= items.len(),
        first_position(items, item) < items.len() ==> items[first_position(items, item)] == item,
        forall|j: int| 0 <= j < first_position(items, item) ==> items[j] != item,
    decreases items.len(),
{
    if items.len() > 0 && items[0] != item {
        let rest = items.drop_first();
        lemma_first_position_bounds(rest, item);
        assert forall|j: int| 0 <= j < first_position(items, item) implies items[j] != item by {
            if j > 0 {
                assert(rest[j - 1] == items[j]);
            }
        }
    }
}

/// Builds the flag of a parameter.
pub fn flag_for(name: &str) -> (flag: String)
    ensures
        flag@ == flag_of(name@),
{
    proof {
        reveal_strlit("--");
    }
    let flag = String::from_str("--").concat(name);
    assert(flag@ =~= flag_of(name@));
    flag
}

/// Tells a flag from a value by its first two characters.
pub fn is_flag(token: &str) -> (b: bool)
    ensures
        b == looks_like_flag(token@),
{
    let mut rest = token.chars();
    match rest.next() {
        Some('-') => match rest.next() {
            Some('-') => true,
            _ => false,
        },
        _ => false,
    }
}

/// Looks for the value of the parameter `name` in the argument list.
pub fn get_argv_string(args: &Vec<String>, name: &str) -> (found: Result<Option<String>, String>)
    ensures
        match found {
            Ok(Some(value)) => argv_string(args.deep_view(), name@) == Ok::<
                Option<Seq<char>>,
                Seq<char>,
            >(Some(value@)),
            Ok(None) => argv_string(args.deep_view(), name@) == Ok::<
                Option<Seq<char>>,
                Seq<char>,
            >(None),
            Err(detail) => argv_string(args.deep_view(), name@) == Err::<
                Option<Seq<char>>,
                Seq<char>,
            >(detail@),
        },
{
    let flag = flag_for(name);
    let ghost tokens = args.deep_view();
    let mut at: usize = 0;
    while at < args.len() && args[at] != flag
        invariant
            at <= args.len(),
            tokens == args.deep_view(),
            forall|j: int| 0 <= j < at ==> tokens[j] != flag@,
        decreases args.len() - at,
    {
        at += 1;
    }
    proof {
        lemma_first_position(tokens, flag@, at as int);
    }
    if at >= args.len() {
        Ok(None)
    } else if at + 1 < args.len() && !is_flag(args[at + 1].as_str()) {
        Ok(Some(args[at + 1].clone()))
    } else {
        Err(String::from_str("Expected a value after argument '").concat(flag.as_str()).concat("'"))
    }
}

/// Reads the required parameter `name` from the argument list.
pub fn read_parameter(args: &Vec<String>, name: &str) -> (read: Result<String, String>)
    ensures
        match read {
            Ok(value) => parameter(args.deep_view(), name@) == Ok::<Seq<char>, Seq<char>>(value@),
            Err(message) => parameter(args.deep_view(), name@) == Err::<Seq<char>, Seq<char>>(
                message@,
            ),
        },
{
    match get_argv_string(args, name) {
        Ok(Some(value)) => Ok(value),
        Ok(None) => Err(String::from_str("Error: ").concat(name).concat(" is required")),
        Err(detail) => Err(String::from_str("Error: ").concat(detail.as_str())),
    }
}

/// Splits a storage path at its first separator into bucket and prefix.
pub fn split_storage_path(path: &str) -> (parts: (String, String))
    ensures
        (parts.0@, parts.1@) == split_path(path@),
{
    let length = path.unicode_len();
    let mut at: usize = 0;
    let mut rest = path.chars();
    loop
        invariant_except_break
            rest.remaining() == path@.skip(at as int),
        invariant
            length == path@.len(),
            at <= length,
            forall|j: int| 0 <= j < at ==> path@[j] != '/',
        ensures
            at <= length,
            forall|j: int| 0 <= j < at ==> path@[j] != '/',
            at < length ==> path@[at as int] == '/',
        decreases length - at,
    {
        match rest.next() {
            Some(c) => {
                if c == '/' {
                    break ;
                }
                at += 1;
            },
            None => {
                break ;
            },
        }
    }
    proof {
        lemma_first_position(path@, '/', at as int);
    }
    if at >= length {
        (path.to_owned(), String::new())
    } else {
        let bucket = path.substring_char(0, at);
        let prefix = path.substring_char(at + 1, length);
        (bucket.to_owned(), prefix.to_owned())
    }
}

/// Reads the whole configuration from the argument list. All four parameters
/// are looked up; the first that cannot be read, in the order storage path,
/// log directory, encryption key, signing key, decides the error.
pub fn read_parameters(args: &Vec<String>) -> (read: Result<Parameters, String>)
    ensures
        match read {
            Ok(p) => parameters(args.deep_view()) == Ok::<ParametersView, Seq<char>>(p@)
                && p@.well_formed(),
            Err(message) => parameters(args.deep_view()) == Err::<ParametersView, Seq<char>>(
                message@,
            ),
        },
{
    let s3_path_s = read_parameter(args, "s3-path");
    let log_dir_s = read_parameter(args, "log-dir");
    let encrypt_key_s = read_parameter(args, "encrypt-key");
    let signing_key_s = read_parameter(args, "signing-key");

    let s3_path_ok = match s3_path_s {
        Ok(value) => value,
        Err(message) => {
            return Err(message);
        },
    };
    let (s3_bucket, s3_path) = split_storage_path(s3_path_ok.as_str());
    let log_dir = match log_dir_s {
        Ok(value) => value,
        Err(message) => {
            return Err(message);
        },
    };
    let encrypt_key = match encrypt_key_s {
        Ok(value) => value,
        Err(message) => {
            return Err(message);
        },
    };
    let signing_key = match signing_key_s {
        Ok(value) => value,
        Err(message) => {
            return Err(message);
        },
    };
    proof {
        lemma_bucket_has_no_separator(s3_path_ok@);
    }
    Ok(Parameters { s3_bucket, s3_path, log_dir, encrypt_key, signing_key })
}

/// Builds the usage banner for the command `program` with what was wrong.
pub fn usage_banner(program: &str, message: &str) -> (text: String)
    ensures
        text@ == usage_text(program@, message@),
{
    String::from_str("Usage: ").concat(program).concat(
        " --s3-path bucket/prefix --log-dir path --encrypt-key keyid --signing-key keyid\n",
    ).concat(message).concat("\n")
}

/// The bucket that a storage path splits into holds no separator.
pub proof fn lemma_bucket_has_no_separator(path: Seq<char>)
    ensures
        !split_path(path).0.contains('/'),
{
    lemma_first_position_bounds(path, '/');
    let bucket = split_path(path).0;
    if bucket.contains('/') {
        let j = choose|j: int| 0 <= j < bucket.len() && bucket[j] == '/';
        assert(path[j] == '/');
    }
}

/// A path without a separator is all bucket: the prefix is empty.
pub proof fn lemma_split_without_separator(path: Seq<char>)
    requires
        !path.contains('/'),
    ensures
        split_path(path) == (path, Seq::<char>::empty()),
{
    lemma_first_position_bounds(path, '/');
    let at = first_position(path, '/');
    if at < path.len() {
        assert(path.contains(path[at]));
    }
}

/// A bucket and a prefix written with a separator between them split back into
/// the two, whatever separators the prefix holds.
pub proof fn lemma_split_at_first_separator(bucket: Seq<char>, prefix: Seq<char>)
    requires
        !bucket.contains('/'),
    ensures
        split_path(bucket + seq!['/'] + prefix) == (bucket, prefix),
{
    let path = bucket + seq!['/'] + prefix;
    let at = bucket.len() as int;
    assert forall|j: int| 0 <= j < at implies path[j] != '/' by {
        assert(bucket.contains(bucket[j]));
    }
    lemma_first_position(path, '/', at);
    assert(path.subrange(0, at) =~= bucket);
    assert(path.subrange(at + 1, path.len() as int) =~= prefix);
}

/// A storage path with a separator is its bucket, a separator and its prefix.
pub proof fn lemma_split_loses_nothing(path: Seq<char>)
    ensures
        path.contains('/') ==> path == split_path(path).0 + seq!['/'] + split_path(path).1,
        !path.contains('/') ==> path == split_path(path).0 && split_path(path).1.len() == 0,
{
    lemma_first_position_bounds(path, '/');
    let at = first_position(path, '/');
    if path.contains('/') {
        let j = choose|j: int| 0 <= j < path.len() && path[j] == '/';
        assert(at <= j);
        assert(path =~= split_path(path).0 + seq!['/'] + split_path(path).1);
    } else {
        lemma_split_without_separator(path);
    }
}

} // verus!
