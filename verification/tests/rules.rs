use terse::tiers::rules::apply_rules;
use terse::tiers::rules::assistant::remove_assistant_boilerplate;
use terse::tiers::rules::fillers::remove_fillers;
use terse::tiers::rules::markdown::strip_markdown_formatting;
use terse::tiers::rules::structural::remove_structural_meta_commentary;
use terse::tiers::rules::substitutions::apply_substitutions;
use terse::tiers::rules::user::{gerund_to_imperative, remove_user_boilerplate};
use terse::tiers::rules::whitespace::normalize_whitespace;
use terse::tiers::nlp::apply_nlp;
use terse::tiers::llm::apply_llm;

#[test]
fn whitespace_is_normalized() {
    assert_eq!(normalize_whitespace("  a\n\nb   c...!!  ").unwrap(), "a b c\u{2026}!");
    assert_eq!(normalize_whitespace("why??").unwrap(), "why?");
}

#[test]
fn markdown_is_stripped() {
    assert_eq!(strip_markdown_formatting("# Title\n**bold** and *it*").unwrap(), "Title\nbold and it");
    assert_eq!(strip_markdown_formatting("a \u{2014} b \u{201C}q\u{201D} \u{2019}").unwrap(), "a, b \"q\" '");
    assert_eq!(strip_markdown_formatting("---").unwrap(), "");
}

#[test]
fn assistant_boilerplate_is_removed() {
    assert_eq!(remove_assistant_boilerplate("Certainly! Here it is. I hope this helps!").unwrap(), "Here it is.");
    assert_eq!(remove_assistant_boilerplate("Plain answer.").unwrap(), "Plain answer.");
}

#[test]
fn fillers_are_removed_at_sentence_start() {
    assert_eq!(remove_fillers("It works. Basically, it is fine.").unwrap(), "It works. it is fine.");
}

#[test]
fn structural_lead_in_is_removed() {
    assert_eq!(remove_structural_meta_commentary("Here is the code: x = 1").unwrap(), "x = 1");
}

#[test]
fn substitutions_shorten_phrases() {
    assert_eq!(apply_substitutions("We did it with the aim of speed").unwrap(), "We did it to speed");
}

#[test]
fn gerunds_become_imperatives() {
    assert_eq!(gerund_to_imperative("making"), "Make");
    assert_eq!(gerund_to_imperative("testing"), "Test");
    assert_eq!(gerund_to_imperative("running"), "Run");
    assert_eq!(gerund_to_imperative("figuring"), "Figure");
}

#[test]
fn rules_pipeline_cleans_assistant_text() {
    let out = apply_rules("Certainly!   Here it is...  I hope this helps!", "assistant").unwrap();
    assert_eq!(out, "Here it is\u{2026}");
}

#[test]
fn nlp_and_llm_tiers() {
    assert_eq!(apply_nlp("An apple and the pear", "user").unwrap(), "apple and pear");
    assert!(apply_llm("x", "user").is_err());
}

#[test]
fn leading_gerund_becomes_imperative() {
    assert_eq!(remove_user_boilerplate("making the build faster").unwrap(), "Make the build faster");
    assert_eq!(remove_user_boilerplate("testing the parser").unwrap(), "Test the parser");
}

#[test]
fn user_pleasantries_are_removed() {
    assert_eq!(
        remove_user_boilerplate("Could you please making the build faster, thanks!").unwrap(),
        "Making the build faster"
    );
}

#[test]
fn substitution_result_is_capitalised() {
    assert_eq!(apply_substitutions("with the aim of speed").unwrap(), "To speed");
}
