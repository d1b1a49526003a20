//! A GraphQL query execution core: field collection over fragments and
//! directives, a recursive executor that drives user resolvers with correct
//! response ordering, a built-in introspection overlay, and deterministic
//! JSON serialization — with the ordering and collection rules stated as
//! specifications and proved.
mod collect;
mod ctx;
mod demo;
mod document;
mod error;
mod executor;
mod introspection;
mod json;
mod laws;
mod lookup;
mod resolver;
mod schema;
mod value;

pub use collect::CollectErr;
pub use collect::GroupedFields;
pub use collect::collect_err_matches;
pub use collect::collect_fields;
pub use collect::eval_bool_arg;
pub use collect::fragment_type_applies;
pub use collect::frag_names;
pub use collect::sel_directives;
pub use collect::should_include;
pub use collect::should_skip;
pub use collect::spec_collect;
pub use collect::spec_directive_cond;
pub use collect::spec_directives_of;
pub use collect::spec_eval_bool_arg;
pub use collect::spec_fragment_applies;
pub use collect::spec_group_add;
pub use collect::spec_should_include;
pub use collect::spec_should_skip;
pub use collect::unvisited_count;
pub use ctx::ExecCtx;
pub use demo::CatResolver;
pub use demo::DemoResolver;
pub use demo::DogResolver;
pub use demo::PersonResolver;
pub use demo::QueryResolver;
pub use demo::demo_schema;
pub use document::Argument;
pub use document::Directive;
pub use document::DocValue;
pub use document::Document;
pub use document::FieldNode;
pub use document::FragmentDefinition;
pub use document::FragmentSpreadNode;
pub use document::InlineFragmentNode;
pub use document::OperationDefinition;
pub use document::OperationType;
pub use document::Selection;
pub use document::SelectionSet;
pub use document::response_key;
pub use document::sel_size;
pub use document::sels_size;
pub use error::Error;
pub use executor::Executor;
pub use executor::all_typename_first;
pub use executor::execute_selection_set;
pub use executor::keys_along;
pub use executor::resolve_to_value;
pub use executor::resolved_size;
pub use executor::select_concrete_type;
pub use executor::spec_collected;
pub use executor::spec_find_operation;
pub use executor::spec_root_type_name;
pub use introspection::ExecResolver;
pub use introspection::IspEnumValueResolver;
pub use introspection::IspFieldResolver;
pub use introspection::IspInputValueResolver;
pub use introspection::IspObjectResolver;
pub use introspection::IspRootResolver;
pub use introspection::IspSchemaResolver;
pub use introspection::IspTypeResolver;
pub use introspection::TypeRef;
pub use introspection::enum_value_resolvers;
pub use introspection::field_resolvers;
pub use introspection::implementor_resolvers;
pub use introspection::input_value_resolvers;
pub use introspection::is_enum_value_resolver_list;
pub use introspection::is_field_resolver_list;
pub use introspection::is_input_value_resolver_list;
pub use introspection::is_type_name_resolver_list;
pub use introspection::named_type_resolvers;
pub use introspection::resolve_named_type;
pub use introspection::resolve_wrapper_type;
pub use introspection::spec_deprecation_reason;
pub use introspection::spec_description;
pub use introspection::spec_implementors;
pub use introspection::spec_opt_str;
pub use introspection::spec_wrapper_null_field;
pub use introspection::spec_is_deprecated;
pub use introspection::spec_is_dunder;
pub use introspection::spec_kind_name;
pub use introspection::spec_specified_by;
pub use introspection::visible_types;
pub use introspection::wrap_user_resolved;
pub use introspection::wraps;
pub use json::floats_wellformed;
pub use json::is_json_number;
pub use json::json_of;
pub use json::to_json;
pub use json::to_json_chars;
pub use json::write_json;
pub use laws::group_keys_distinct;
pub use laws::lemma_field_included;
pub use laws::lemma_fragment_revisit_refused;
pub use laws::lemma_fragment_spread_condition;
pub use laws::lemma_group_add_key_order;
pub use laws::lemma_group_add_keeps_distinct;
pub use laws::lemma_include_false_omits;
pub use laws::lemma_inline_fragment_condition;
pub use laws::lemma_skip_true_omits;
pub use laws::lemma_spec_collect_keys_distinct;
pub use lookup::Keyed;
pub use lookup::find_by_key;
pub use lookup::find_index_by_key;
pub use lookup::spec_find;
pub use resolver::Ctx;
pub use resolver::CtxArg;
pub use resolver::FromCtxArg;
pub use resolver::ObjectResolver;
pub use resolver::Resolved;
pub use resolver::resolve_doc_value;
pub use resolver::spec_resolve_doc_value;
pub use schema::EnumTypeDefinition;
pub use schema::EnumValueDefinition;
pub use schema::ExecSchema;
pub use schema::FieldDefinition;
pub use schema::InputObjectTypeDefinition;
pub use schema::InputValueDefinition;
pub use schema::InterfaceTypeDefinition;
pub use schema::ObjectTypeDefinition;
pub use schema::ScalarTypeDefinition;
pub use schema::SchemaDoc;
pub use schema::Type;
pub use schema::TypeDefinition;
pub use schema::UnionTypeDefinition;
pub use schema::entries_subtype;
pub use schema::introspection_type_definitions;
pub use schema::opt_text;
pub use schema::spec_declares_subtype;
pub use schema::spec_find_object_def;
pub use schema::spec_union_declares;
pub use value::ConstValue;
pub use value::Name;
pub use value::NumberValue;
pub use value::ValueModel;
pub use value::vmodel;
pub use value::vmodel_fields;
pub use value::vmodel_list;
