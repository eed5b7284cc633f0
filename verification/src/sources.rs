//! The URLs that a fetcher takes its blocks from.

use crate::archive_url::{parse_url, url_parsed, url_result, ArchiveUrl, UrlView};
use crate::error::{ErrorView, ReqwestTransactionsFetcherError};
use crate::text::texts;
use vstd::prelude::*;
use vstd::string::{StrSliceExecFns, StringExecFns};

verus! {

/// A URL, or the error, as a mathematical value.
pub open spec fn source_result(r: Result<ArchiveUrl, ReqwestTransactionsFetcherError>) -> Result<
    UrlView,
    ErrorView,
> {
    match r {
        Ok(url) => Ok(url@),
        Err(error) => Err(error@),
    }
}

/// A URL where `text` gave one; else an error that names the text.
pub open spec fn url_or_error_of(text: Seq<char>, url: Result<UrlView, Seq<char>>) -> Result<
    UrlView,
    ErrorView,
> {
    match url {
        Ok(url) => Ok(url),
        Err(error) => Err(ErrorView::UrlParse(text, error)),
    }
}

/// Names the text that did not give a URL.
pub fn url_or_error(text: &str, url: Result<ArchiveUrl, String>) -> (r: Result<
    ArchiveUrl,
    ReqwestTransactionsFetcherError,
>)
    ensures
        source_result(r) == url_or_error_of(text@, url_result(url)),
{
    match url {
        Ok(url) => Ok(url),
        Err(error) => Err(ReqwestTransactionsFetcherError::UrlParse(text.to_owned(), error)),
    }
}

/// `url` with a slash at its end.
pub open spec fn with_final_slash(url: Seq<char>) -> Seq<char> {
    if url.len() > 0 && url.last() == '/' {
        url
    } else {
        url + "/"@
    }
}

/// Sees to it that `url` ends with a slash, so that the path of a block is
/// looked up below it and not beside it.
pub fn add_final_slash(url: String) -> (r: String)
    ensures
        r@ == with_final_slash(url@),
        r@.len() > 0,
        r@.last() == '/',
{
    proof {
        reveal_strlit("/");
    }
    let mut url = url;
    let n = url.as_str().unicode_len();
    if n == 0 || url.as_str().get_char(n - 1) != '/' {
        url.append("/");
    }
    url
}

/// What the texts of source URLs give: a URL for each, or the error of the
/// first that gives none.
pub open spec fn parsed_sources(urls: Seq<Seq<char>>) -> Result<Seq<UrlView>, ErrorView>
    decreases urls.len(),
{
    if urls.len() == 0 {
        Ok(Seq::empty())
    } else {
        let text = with_final_slash(urls.last());
        match parsed_sources(urls.drop_last()) {
            Err(error) => Err(error),
            Ok(front) => match url_or_error_of(text, url_parsed(text)) {
                Err(error) => Err(error),
                Ok(url) => Ok(front.push(url)),
            },
        }
    }
}

proof fn error_of_a_part(urls: Seq<Seq<char>>, n: int)
    requires
        0 <= n <= urls.len(),
        parsed_sources(urls.take(n)) is Err,
    ensures
        parsed_sources(urls) == parsed_sources(urls.take(n)),
    decreases urls.len() - n,
{
    if n == urls.len() {
        assert(urls.take(n) =~= urls);
    } else {
        assert(urls.take(n + 1).drop_last() =~= urls.take(n));
        error_of_a_part(urls, n + 1);
    }
}

/// The values of `urls`.
pub open spec fn url_views(urls: Seq<ArchiveUrl>) -> Seq<UrlView> {
    urls.map_values(|url: ArchiveUrl| url@)
}

pub(crate) fn parse_sources(urls: &Vec<String>) -> (r: Result<
    Vec<ArchiveUrl>,
    ReqwestTransactionsFetcherError,
>)
    ensures
        match r {
            Ok(parsed) => parsed_sources(texts(urls@)) == Ok::<_, ErrorView>(
                url_views(parsed@),
            ),
            Err(error) => parsed_sources(texts(urls@)) == Err::<
                Seq<UrlView>,
                _,
            >(error@),
        },
{
    let ghost all = texts(urls@);
    let mut parsed: Vec<ArchiveUrl> = Vec::new();
    let mut i: usize = 0;
    assert(all.take(0) =~= Seq::empty());
    assert(url_views(parsed@) =~= Seq::empty());
    while i < urls.len()
        invariant
            i <= urls@.len(),
            all == texts(urls@),
            parsed_sources(all.take(i as int)) == Ok::<_, ErrorView>(url_views(parsed@)),
        decreases urls@.len() - i,
    {
        let ghost before = url_views(parsed@);
        proof {
            let next = all.take(i + 1);
            assert(next.drop_last() =~= all.take(i as int));
            assert(next.last() == urls@[i as int]@);
        }
        let text = add_final_slash(urls[i].clone());
        match url_or_error(text.as_str(), parse_url(text.as_str())) {
            Ok(url) => {
                parsed.push(url);
                assert(url_views(parsed@) =~= before.push(url@));
            },
            Err(error) => {
                proof {
                    error_of_a_part(all, i + 1);
                }
                return Err(error);
            },
        }
        i += 1;
    }
    assert(all.take(i as int) =~= all);
    Ok(parsed)
}

/// Every source is read from a text that ends with a slash, and none is left
/// out or moved.
pub proof fn every_source_ends_with_a_slash(urls: Seq<Seq<char>>, i: int)
    requires
        parsed_sources(urls) is Ok,
        0 <= i < urls.len(),
    ensures
        parsed_sources(urls)->Ok_0.len() == urls.len(),
        url_parsed(with_final_slash(urls[i])) == Ok::<_, Seq<char>>(parsed_sources(urls)->Ok_0[i]),
        with_final_slash(urls[i]).last() == '/',
    decreases urls.len(),
{
    reveal_strlit("/");
    if urls.len() == 1 {
        assert(parsed_sources(urls.drop_last()) == Ok::<_, ErrorView>(Seq::<UrlView>::empty()));
    } else if i < urls.len() - 1 {
        every_source_ends_with_a_slash(urls.drop_last(), i);
    } else {
        every_source_ends_with_a_slash(urls.drop_last(), 0);
    }
}

/// A text that ends with a slash stays as it is, and any other gets one.
pub proof fn one_slash_is_added_where_there_is_none(url: Seq<char>)
    ensures
        url.len() > 0 && url.last() == '/' ==> with_final_slash(url) == url,
        !(url.len() > 0 && url.last() == '/') ==> with_final_slash(url) == url.push('/'),
{
    reveal_strlit("/");
    assert(url + "/"@ =~= url.push('/'));
}

/// What a text gives as a URL is handed on as it is, and what is wrong with it
/// is reported with the text.
pub proof fn a_text_that_is_no_url_is_named(text: Seq<char>, url: UrlView, error: Seq<char>)
    ensures
        url_or_error_of(text, Ok(url)) == Ok::<_, ErrorView>(url),
        url_or_error_of(text, Err(error)) == Err::<UrlView, _>(ErrorView::UrlParse(text, error)),
{
}

/// Sources are accepted if and only if the text of each, with a slash at its
/// end, is a URL. Else the first that is none is named.
pub proof fn the_first_text_that_is_no_url_is_reported(urls: Seq<Seq<char>>)
    ensures
        match parsed_sources(urls) {
            Ok(parsed) => {
                &&& parsed.len() == urls.len()
                &&& forall|i: int|
                    #![trigger parsed[i]]
                    0 <= i < urls.len() ==> url_parsed(with_final_slash(urls[i])) == Ok::<
                        _,
                        Seq<char>,
                    >(parsed[i])
            },
            Err(error) => exists|i: int|
                #![trigger urls[i]]
                {
                    &&& 0 <= i < urls.len()
                    &&& url_parsed(with_final_slash(urls[i])) is Err
                    &&& error == ErrorView::UrlParse(
                        with_final_slash(urls[i]),
                        url_parsed(with_final_slash(urls[i]))->Err_0,
                    )
                    &&& forall|j: int|
                        #![trigger urls[j]]
                        0 <= j < i ==> url_parsed(with_final_slash(urls[j])) is Ok
                },
        },
    decreases urls.len(),
{
    if urls.len() > 0 {
        let n = urls.len() - 1;
        let front = urls.drop_last();
        the_first_text_that_is_no_url_is_reported(front);
        assert(urls[n] == urls.last());
        match parsed_sources(front) {
            Ok(parsed) => {
                assert forall|j: int| 0 <= j < n implies url_parsed(
                    with_final_slash(#[trigger] urls[j]),
                ) is Ok by {
                    assert(front[j] == urls[j]);
                    assert(url_parsed(with_final_slash(front[j])) == Ok::<_, Seq<char>>(
                        parsed[j],
                    ));
                }
            },
            Err(error) => {
                let i = choose|i: int|
                    #![trigger front[i]]
                    {
                        &&& 0 <= i < front.len()
                        &&& url_parsed(with_final_slash(front[i])) is Err
                        &&& error == ErrorView::UrlParse(
                            with_final_slash(front[i]),
                            url_parsed(with_final_slash(front[i]))->Err_0,
                        )
                        &&& forall|j: int|
                            #![trigger front[j]]
                            0 <= j < i ==> url_parsed(with_final_slash(front[j])) is Ok
                    };
                assert(urls[i] == front[i]);
                assert forall|j: int| 0 <= j < i implies url_parsed(
                    with_final_slash(#[trigger] urls[j]),
                ) is Ok by {
                    assert(front[j] == urls[j]);
                }
            },
        }
    }
}

} // verus!
