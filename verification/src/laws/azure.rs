//! Where Azure is found.
use vstd::prelude::*;
use crate::api::azure_openai_responses::{normalized_base, responses_url};
use crate::text::{contains_text, index_of, lemma_index_of, text_position, trimmed, trimmed_end_of};

verus! {

proof fn lemma_absent(s: Seq<char>, c: char)
    requires
        !s.contains(c),
    ensures
        index_of(s, c) == s.len(),
{
    lemma_index_of(s, c);
}

proof fn lemma_path(host: Seq<char>, path: Seq<char>)
    requires
        !host.contains('/'),
        path.len() > 0 ==> path[0] == '/',
    ensures
        index_of(host + path, '/') == host.len(),
        (host + path).take(host.len() as int) == host,
        (host + path).skip(host.len() as int) == path,
{
    let s = host + path;
    lemma_index_of(s, '/');
    let i = index_of(s, '/');
    assert(s.take(host.len() as int) =~= host);
    assert(s.skip(host.len() as int) =~= path);
    if i < host.len() {
        assert(s[i] == host[i]);
        assert(host.contains('/'));
    }
    if path.len() > 0 {
        assert(s[host.len() as int] == '/');
    }
}

/// On a host of Azure a path that is missing or leads only part of the way is
/// completed; any other address stays what it is.
pub proof fn law_azure_paths(scheme: Seq<char>, host: Seq<char>, path: Seq<char>)
    requires
        !host.contains('/') && !host.contains(':'),
        path.len() > 0 ==> path[0] == '/' && path.last() != '/',
        !path.contains('?'),
        text_position(scheme + "://"@ + host + path, "://"@) == Some(scheme.len() as int),
        trimmed_end_of(trimmed(scheme + "://"@ + host + path), '/') == scheme + "://"@ + host
            + path,
    ensures
        ({
            let base = scheme + "://"@ + host + path;
            let azure = ".openai.azure.com"@.is_suffix_of(host)
                || ".cognitiveservices.azure.com"@.is_suffix_of(host)
                || ".ai.azure.com"@.is_suffix_of(host);
            &&& azure && (path.len() == 0 || path == "/openai"@ || path == "/openai/v1/responses"@)
                ==> normalized_base(base) == Ok::<Seq<char>, Seq<char>>(
                scheme + "://"@ + host + "/openai/v1"@,
            )
            &&& azure && path.len() > 0 && path != "/openai"@ && path != "/openai/v1/responses"@
                ==> normalized_base(base) == Ok::<Seq<char>, Seq<char>>(base)
            &&& !azure ==> normalized_base(base) == Ok::<Seq<char>, Seq<char>>(base)
        }),
{
    let base = scheme + "://"@ + host + path;
    let i = scheme.len() as int;
    let rest = base.skip(i + "://"@.len());
    assert(rest =~= host + path);
    assert(base.take(i) =~= scheme);
    lemma_path(host, path);
    lemma_absent(host, ':');
    assert(host.take(host.len() as int) =~= host);
    lemma_absent(path, '?');
    assert(path.take(path.len() as int) =~= path);
    assert(trimmed_end_of(path, '/') == path);
}

/// What is no address is refused, and a request goes to the responses of its base in
/// the version that is asked.
pub proof fn law_azure_addresses(base: Seq<char>, version: Seq<char>)
    ensures
        text_position(trimmed_end_of(trimmed(base), '/'), "://"@) is None ==> normalized_base(base)
            is Err,
        !contains_text(base, "?"@) ==> responses_url(base, version) =~= base + "/openai/responses"@
            + ("?"@ + "api-version="@ + version),
        contains_text(base, "?"@) ==> responses_url(base, version) =~= base + "/openai/responses"@
            + ("&"@ + "api-version="@ + version),
{
}

} // verus!
