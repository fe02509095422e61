//! A resumable two-pass chapter translation pipeline: each chapter is first analysed,
//! which grows a glossary of terms and a running story summary that is saved per chapter,
//! then translated with that glossary; a later run resumes at the first chapter whose
//! artifacts are missing.

pub mod backend;
pub mod chapter;
pub mod glossary;
pub mod resume;
pub mod text;
