use vstd::prelude::*;
use crate::textmap::{same_text, texts};

verus! {

/// The kinds of statement the query language knows.
#[derive(Debug, Clone, Copy, PartialEq, Eq, Structural)]
pub enum QueryType {
    Select,
    Insert,
    Update,
    Delete,
    CreateNamespace,
    DeleteNamespace,
    UploadFile,
    ProcessFile,
    GenerateEmbedding,
    SimilaritySearch,
    LLMQuery,
    Join,
    Aggregate,
    InstallPackage,
    ListPackages,
    ExecuteLua,
}

/// Why a statement could not be read.
#[derive(Debug, Clone, Copy, PartialEq, Eq, Structural)]
pub enum ParseError {
    EmptyQuery,
    UnknownQueryType,
}

/// The characters with the Unicode White_Space property.
pub open spec fn is_space(c: char) -> bool {
    let u = c as u32;
    (0x9 <= u <= 0xd) || u == 0x20 || u == 0x85 || u == 0xa0 || u == 0x1680 || (0x2000 <= u
        <= 0x200a) || u == 0x2028 || u == 0x2029 || u == 0x202f || u == 0x205f || u == 0x3000
}

/// The maximal runs of non-space characters of `s`, left to right.
pub open spec fn words(s: Seq<char>) -> Seq<Seq<char>>
    decreases s.len(),
{
    if s.len() == 0 {
        Seq::empty()
    } else {
        let prev = words(s.drop_last());
        let c = s.last();
        if is_space(c) {
            prev
        } else if s.len() == 1 || is_space(s[s.len() - 2]) {
            prev.push(seq![c])
        } else {
            prev.update(prev.len() - 1, prev.last().push(c))
        }
    }
}

/// The statement kind that a lower-case keyword names.
pub open spec fn keyword_kind(w: Seq<char>) -> Option<QueryType> {
    if w == "select"@ {
        Some(QueryType::Select)
    } else if w == "insert"@ {
        Some(QueryType::Insert)
    } else if w == "update"@ {
        Some(QueryType::Update)
    } else if w == "delete"@ {
        Some(QueryType::Delete)
    } else if w == "create_namespace"@ {
        Some(QueryType::CreateNamespace)
    } else if w == "delete_namespace"@ {
        Some(QueryType::DeleteNamespace)
    } else if w == "upload_file"@ {
        Some(QueryType::UploadFile)
    } else if w == "process_file"@ {
        Some(QueryType::ProcessFile)
    } else if w == "generate_embedding"@ {
        Some(QueryType::GenerateEmbedding)
    } else if w == "similarity_search"@ {
        Some(QueryType::SimilaritySearch)
    } else if w == "llm_query"@ {
        Some(QueryType::LLMQuery)
    } else if w == "join"@ {
        Some(QueryType::Join)
    } else if w == "aggregate"@ {
        Some(QueryType::Aggregate)
    } else if w == "install_package"@ {
        Some(QueryType::InstallPackage)
    } else if w == "list_packages"@ {
        Some(QueryType::ListPackages)
    } else if w == "execute_lua"@ {
        Some(QueryType::ExecuteLua)
    } else {
        None
    }
}

/// What `str::to_lowercase` makes of a text.
pub uninterp spec fn lower_of(s: Seq<char>) -> Seq<char>;

/// Relies on `str::to_lowercase`: its result depends on the characters alone.
#[verifier::external_body]
fn lowercase(s: &str) -> (r: String)
    ensures
        r@ == lower_of(s@),
{
    s.to_lowercase()
}

/// The result that `QueryParser::parse` owes for `query`.
pub open spec fn parse_result(query: Seq<char>) -> Result<(QueryType, Seq<Seq<char>>), ParseError> {
    let w = words(query);
    if w.len() == 0 {
        Err(ParseError::EmptyQuery)
    } else {
        match keyword_kind(lower_of(w[0])) {
            Some(t) => Ok((t, w.drop_first())),
            None => Err(ParseError::UnknownQueryType),
        }
    }
}

pub fn is_space_char(c: char) -> (r: bool)
    ensures
        r == is_space(c),
{
    let u = c as u32;
    (0x9 <= u && u <= 0xd) || u == 0x20 || u == 0x85 || u == 0xa0 || u == 0x1680 || (0x2000 <= u
        && u <= 0x200a) || u == 0x2028 || u == 0x2029 || u == 0x202f || u == 0x205f || u == 0x3000
}

/// Splits `s` into its words.
pub fn split_words(s: &str) -> (r: Vec<String>)
    ensures
        texts(r@) == words(s@),
{
    let n = s.unicode_len();
    let mut out: Vec<String> = Vec::new();
    let mut start: usize = 0;
    let mut in_word = false;
    let mut i: usize = 0;
    assert(s@.subrange(0, 0) =~= Seq::<char>::empty());
    assert(texts(out@) =~= Seq::<Seq<char>>::empty());
    while i < n
        invariant
            n == s@.len(),
            start <= i <= n,
            in_word ==> start < i && !is_space(s@[i - 1]) && texts(out@).push(
                s@.subrange(start as int, i as int),
            ) == words(s@.subrange(0, i as int)),
            !in_word ==> texts(out@) == words(s@.subrange(0, i as int)) && (i > 0 ==> is_space(
                s@[i - 1],
            )),
        decreases n - i,
    {
        let c = s.get_char(i);
        let ghost t = s@.subrange(0, i + 1);
        let ghost prev_out = out@;
        assert(t.drop_last() =~= s@.subrange(0, i as int));
        assert(t.last() == c);
        if i > 0 {
            assert(t[t.len() - 2] == s@[i - 1]);
        }
        if is_space_char(c) {
            if in_word {
                let w = s.substring_char(start, i).to_owned();
                out.push(w);
                in_word = false;
                assert(texts(out@) =~= texts(prev_out).push(s@.subrange(start as int, i as int)));
            }
        } else if !in_word {
            start = i;
            in_word = true;
            assert(s@.subrange(start as int, i + 1) =~= seq![c]);
        } else {
            let ghost w0 = texts(out@).push(s@.subrange(start as int, i as int));
            assert(s@.subrange(start as int, i + 1) =~= s@.subrange(start as int, i as int).push(c));
            assert(w0.update(w0.len() - 1, w0.last().push(c)) =~= texts(out@).push(
                s@.subrange(start as int, i + 1),
            ));
        }
        i = i + 1;
    }
    assert(s@.subrange(0, n as int) =~= s@);
    if in_word {
        let ghost prev_out = out@;
        let w = s.substring_char(start, n).to_owned();
        out.push(w);
        assert(texts(out@) =~= texts(prev_out).push(s@.subrange(start as int, n as int)));
    }
    out
}

impl QueryType {
    /// The statement kind named by an already lower-cased keyword.
    pub fn from_keyword(word: &str) -> (r: Option<QueryType>)
        ensures
            r == keyword_kind(word@),
    {
        if same_text(word, "select") {
            Some(QueryType::Select)
        } else if same_text(word, "insert") {
            Some(QueryType::Insert)
        } else if same_text(word, "update") {
            Some(QueryType::Update)
        } else if same_text(word, "delete") {
            Some(QueryType::Delete)
        } else if same_text(word, "create_namespace") {
            Some(QueryType::CreateNamespace)
        } else if same_text(word, "delete_namespace") {
            Some(QueryType::DeleteNamespace)
        } else if same_text(word, "upload_file") {
            Some(QueryType::UploadFile)
        } else if same_text(word, "process_file") {
            Some(QueryType::ProcessFile)
        } else if same_text(word, "generate_embedding") {
            Some(QueryType::GenerateEmbedding)
        } else if same_text(word, "similarity_search") {
            Some(QueryType::SimilaritySearch)
        } else if same_text(word, "llm_query") {
            Some(QueryType::LLMQuery)
        } else if same_text(word, "join") {
            Some(QueryType::Join)
        } else if same_text(word, "aggregate") {
            Some(QueryType::Aggregate)
        } else if same_text(word, "install_package") {
            Some(QueryType::InstallPackage)
        } else if same_text(word, "list_packages") {
            Some(QueryType::ListPackages)
        } else if same_text(word, "execute_lua") {
            Some(QueryType::ExecuteLua)
        } else {
            None
        }
    }
}

/// Reads a statement: a keyword, in any case, followed by its arguments.
pub struct QueryParser;

impl QueryParser {
    pub fn parse(query: &str) -> (r: Result<(QueryType, Vec<String>), ParseError>)
        ensures
            match parse_result(query@) {
                Ok((t, args)) => r matches Ok((rt, rargs)) && rt == t && texts(rargs@) == args,
                Err(e) => r == Err::<(QueryType, Vec<String>), ParseError>(e),
            },
    {
        let mut parts = split_words(query);
        if parts.len() == 0 {
            return Err(ParseError::EmptyQuery);
        }
        let ghost all = parts@;
        let first = parts.remove(0);
        assert(texts(parts@) =~= texts(all).drop_first());
        let lowered = lowercase(first.as_str());
        match QueryType::from_keyword(lowered.as_str()) {
            Some(t) => Ok((t, parts)),
            None => Err(ParseError::UnknownQueryType),
        }
    }
}

/// A white-space character before a text adds no word and changes none.
pub proof fn lemma_words_leading_space(c: char, s: Seq<char>)
    requires
        is_space(c),
    ensures
        words(seq![c] + s) == words(s),
    decreases s.len(),
{
    let t = seq![c] + s;
    if s.len() == 0 {
        assert(t.drop_last() =~= Seq::<char>::empty());
        assert(t.last() == c);
        assert(words(t) == words(t.drop_last()));
    } else {
        assert(t.drop_last() =~= seq![c] + s.drop_last());
        assert(t.last() == s.last());
        lemma_words_leading_space(c, s.drop_last());
        assert(words(t.drop_last()) == words(s.drop_last()));
        if s.len() == 1 {
            assert(t[t.len() - 2] == c);
        } else {
            assert(t[t.len() - 2] == s[s.len() - 2]);
        }
        assert(words(t) == words(s));
    }
}

/// White space before or after a statement does not change how it is read.
pub proof fn lemma_surrounding_space_ignored(c: char, query: Seq<char>)
    requires
        is_space(c),
    ensures
        parse_result(seq![c] + query) == parse_result(query),
        parse_result(query.push(c)) == parse_result(query),
{
    lemma_words_leading_space(c, query);
    assert(query.push(c).drop_last() =~= query);
}

} // verus!
