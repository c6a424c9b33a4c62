//! Tools that search a configured knowledge base.

use crate::config::KB;
use crate::tools::{Tool, SEARCH_PARAMETERS};
use vstd::prelude::*;

verus! {

/// A tool that searches one knowledge base over HTTP.
#[derive(Clone, Debug, PartialEq, Eq)]
pub struct KBTool {
    name: String,
    description: String,
    url: String,
    num_results: i32,
}

/// The mathematical value of a `KBTool`.
pub struct KBToolModel {
    pub name: Seq<char>,
    pub description: Seq<char>,
    pub url: Seq<char>,
    pub num_results: i32,
}

impl View for KBTool {
    type V = KBToolModel;

    closed spec fn view(&self) -> KBToolModel {
        KBToolModel {
            name: self.name@,
            description: self.description@,
            url: self.url@,
            num_results: self.num_results,
        }
    }
}

/// The tool that stands for a knowledge base reached at `url`.
pub open spec fn kb_tool(url: Seq<char>, name: Seq<char>, num_results: i32) -> KBToolModel {
    KBToolModel {
        name,
        description: "Knowledge base containing information on "@ + name,
        url,
        num_results,
    }
}

impl KBTool {
    /// The tool for the knowledge base `kb_config`, served at `url`.
    pub fn new(url: String, kb_config: KB) -> (tool: Self)
        ensures
            tool@ == kb_tool(url@, kb_config.name@, kb_config.num_results),
    {
        let mut description = "Knowledge base containing information on ".to_owned();
        description.append(kb_config.name.as_str());
        KBTool { name: kb_config.name, description, url, num_results: kb_config.num_results }
    }

    /// The address of the service that holds the knowledge base.
    pub fn url(&self) -> (url: &str)
        ensures
            url@ == self@.url,
    {
        self.url.as_str()
    }

    /// How many results a search asks for.
    pub fn num_results(&self) -> (n: i32)
        ensures
            n == self@.num_results,
    {
        self.num_results
    }

    /// The address to which a search is posted:
    /// `<url>/knowledge_base/<name>/similar`.
    pub fn search_url(&self) -> (address: String)
        ensures
            address@ == self@.url + "/knowledge_base/"@ + self@.name + "/similar"@,
    {
        let mut address = self.url.clone();
        address.append("/knowledge_base/");
        address.append(self.name.as_str());
        address.append("/similar");
        address
    }
}

impl Tool for KBTool {
    open spec fn spec_name(&self) -> Seq<char> {
        self@.name
    }

    open spec fn spec_description(&self) -> Seq<char> {
        self@.description
    }

    open spec fn spec_parameters(&self) -> Seq<char> {
        SEARCH_PARAMETERS@
    }

    fn name(&self) -> (name: &str) {
        self.name.as_str()
    }

    fn description(&self) -> (description: &str) {
        self.description.as_str()
    }

    fn parameters(&self) -> (schema: String) {
        SEARCH_PARAMETERS.to_owned()
    }
}

/// One tool for each configured knowledge base, in the order of the
/// configuration, all served at `url`.
pub fn get_tools(kb_configs: Vec<KB>, url: &str) -> (tools: Vec<KBTool>)
    ensures
        tools@.len() == kb_configs@.len(),
        forall|i: int|
            0 <= i < tools@.len() ==> (#[trigger] tools@[i])@ == kb_tool(
                url@,
                kb_configs@[i].name@,
                kb_configs@[i].num_results,
            ),
{
    let mut tools: Vec<KBTool> = Vec::new();
    let mut i: usize = 0;
    while i < kb_configs.len()
        invariant
            i <= kb_configs.len(),
            tools@.len() == i,
            forall|j: int|
                0 <= j < i ==> (#[trigger] tools@[j])@ == kb_tool(
                    url@,
                    kb_configs@[j].name@,
                    kb_configs@[j].num_results,
                ),
        decreases kb_configs.len() - i,
    {
        let kb = KB { name: kb_configs[i].name.clone(), num_results: kb_configs[i].num_results };
        tools.push(KBTool::new(url.to_owned(), kb));
        i += 1;
    }
    tools
}

} // verus!
